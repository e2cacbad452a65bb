//! Reads and waits.

use super::{
    authenticated, known, text_of, topic_settled, topic_sought, topic_view, App, AppView,
};
use crate::clock::Moment;
use crate::config::Config;
use crate::digest::sha256;
use crate::form::{form, pairs_in};
use crate::identity::{law_letting_in, law_terms_go_by_age, Identity};
use crate::memory::recalled;
use crate::paging::{
    keeps, law_following_page, law_gap, law_live_page, law_newest_page, law_newest_page_leads_on,
    law_nothing_follows_the_latest,
};
use crate::reject::{Reject, RejectView};
use crate::reply::{law_page_link_reads_back, law_page_replies, page, page_pairs, PageReply};
use crate::request::Params;
use crate::text::{decimal, law_numerals_differ};
use crate::topic::{
    items, live_items, missed, page_limit, shown, shown_live, subscribe, Message, Subscription,
    Topic, TopicView,
};
use std::sync::Arc;
use vstd::prelude::*;
use vstd::utf8::encode_utf8;

verus! {

broadcast use vstd::std_specs::hash::group_hash_axioms;

/// Whether `reply` is the page of a topic, given the topic if it was found.
pub open spec fn page_answers(
    config: Config,
    topic: Seq<char>,
    params: &Params,
    now: u64,
    found: Option<TopicView>,
    reply: PageReply,
) -> bool {
    match found {
        Some(found) => reply.says(
            topic,
            shown(found.ring, params.after, params.min_age, now, page_limit(params.n, &config)),
            missed(found.ring, params.after),
            params,
            now,
        ),
        None => reply.says(topic, Seq::empty(), false, params, now),
    }
}

/// Whether `reply` is what a read comes to, and takes the board from `pre` to
/// `post`: the page of the topic as the look-up left it.
pub open spec fn read_answered(
    pre: AppView,
    post: AppView,
    topic: Seq<char>,
    params: &Params,
    now: u64,
    reply: PageReply,
) -> bool {
    &&& topic_sought(pre, post, topic)
    &&& page_answers(pre.config, topic, params, now, recalled(post.topics, topic), reply)
}

/// Whether `reply` is the answer to a wait during which some messages arrived.
pub open spec fn wait_answered(
    config: Config,
    topic: Seq<char>,
    params: &Params,
    arrived: Seq<Arc<Message>>,
    gap: bool,
    now: u64,
    reply: PageReply,
) -> bool {
    reply.says(
        topic,
        shown_live(arrived, params.min_age, now, page_limit(params.n, &config)),
        gap,
        params,
        now,
    )
}

/// A wait that has begun.
pub struct Waiting {
    /// The identity that waits.
    pub id: u64,
    /// The seconds after which it ends.
    pub secs: u64,
    /// Where messages arrive.
    pub listening: Subscription,
    /// Whether messages were missed before it began.
    pub gap: bool,
}

/// Where a wait stands.
pub enum WaitStep {
    /// It is turned down.
    Refused(Reject),
    /// There is something to show at once.
    Ready(PageReply),
    /// It goes on until a message arrives or the time is up.
    Block(Waiting),
}

/// Whether a step turns a wait down for the given reason.
pub open spec fn not_waiting(step: WaitStep, reject: RejectView) -> bool {
    step matches WaitStep::Refused(given) && given@ == reject
}

/// Whether a wait of an identity that has looked for a topic opens with `step`
/// and takes the board from `pre` to `post`. What there is to show is shown at
/// once, and otherwise the identity holds one wait more.
pub open spec fn wait_decided(
    pre: AppView,
    post: AppView,
    identity: Identity,
    topic: Seq<char>,
    params: &Params,
    secs: u64,
    at: Moment,
    step: WaitStep,
) -> bool {
    let config = pre.config;
    let n = page_limit(params.n, &config);
    let settled = post.topics[topic];
    let items = shown(settled.ring, params.after, params.min_age, at.now, n);
    let gap = missed(settled.ring, params.after);
    if pre.open_waits(identity.id) >= config.max_waiters {
        post == pre && not_waiting(
            step,
            RejectView::Waiters(config.max_waiters, config.max_wait_secs),
        )
    } else {
        match step {
            WaitStep::Refused(reject) => topic_settled(
                pre,
                post,
                identity,
                topic,
                at,
                Err(reject@),
            ),
            WaitStep::Ready(reply) => {
                &&& topic_settled(pre, post, identity, topic, at, Ok(settled))
                &&& items.len() > 0
                &&& reply.says(topic, items, gap, params, at.now)
            },
            WaitStep::Block(waiting) => {
                &&& topic_settled(
                    pre,
                    AppView { waits: pre.waits, ..post },
                    identity,
                    topic,
                    at,
                    Ok(settled),
                )
                &&& post.waits == pre.waits.insert(
                    identity.id,
                    (pre.open_waits(identity.id) + 1) as usize,
                )
                &&& items.len() == 0
                &&& waiting.id == identity.id
                &&& waiting.secs == (if secs <= config.max_wait_secs {
                    secs
                } else {
                    config.max_wait_secs
                })
                &&& waiting.listening.channel() == settled.tx
                &&& waiting.gap == gap
            },
        }
    }
}

/// Whether looking for an identity and for a topic takes the board from `pre`
/// to `mid`.
pub open spec fn both_sought(
    pre: AppView,
    mid: AppView,
    name: Option<Seq<char>>,
    topic: Seq<char>,
) -> bool {
    &&& mid == AppView { identities: mid.identities, topics: mid.topics, ..pre }
    &&& mid.identities == pre.identities || (name is Some && mid.identities == pre.identities.remove(
        name->0,
    ))
    &&& mid.topics == pre.topics || mid.topics == pre.topics.remove(topic)
}

/// Whether a wait opens with `step` and takes the board, as the look-ups left
/// it, from `mid` to `post`.
pub open spec fn wait_opens(
    mid: AppView,
    post: AppView,
    topic: Seq<char>,
    params: &Params,
    secs: u64,
    at: Moment,
    step: WaitStep,
) -> bool {
    let name = text_of(params.name);
    match authenticated(known(mid, name), name, text_of(params.pass)) {
        Err(reject) => post == mid && not_waiting(step, reject),
        Ok(identity) => wait_decided(mid, post, identity, topic, params, secs, at, step),
    }
}

/// The board after an identity has ended one of its waits.
pub open spec fn released(state: AppView, id: u64) -> AppView {
    AppView {
        waits: if state.open_waits(id) <= 1 {
            state.waits.remove(id)
        } else {
            state.waits.insert(id, (state.open_waits(id) - 1) as usize)
        },
        ..state
    }
}

impl App {
    /// The page of a topic that was looked for. One that was not found has
    /// nothing to show.
    pub fn page_of(
        &self,
        found: Option<Arc<Topic>>,
        topic: &str,
        params: &Params,
        now: u64,
    ) -> (reply: PageReply)
        ensures
            page_answers(self@.config, topic@, params, now, topic_view(found), reply),
    {
        let (shown, gap) = match &found {
            Some(topic) => items(topic, params, &self.config, now),
            None => (Vec::new(), false),
        };
        page(topic, shown, gap, params, now)
    }

    /// Reads a topic. A topic that is not remembered is not created.
    pub fn read(&mut self, topic: &str, params: &Params, now: u64) -> (reply: PageReply)
        ensures
            old(self)@.well_formed() ==> final(self)@.well_formed(),
            read_answered(old(self)@, final(self)@, topic@, params, now, reply),
    {
        let found = self.find_topic(topic);
        self.page_of(found, topic, params, now)
    }

    /// How many waits an identity holds open.
    fn count_waits(&self, id: u64) -> (r: usize)
        ensures
            r == self@.open_waits(id),
    {
        match self.waits.get(&id) {
            Some(count) => *count,
            None => 0,
        }
    }

    /// Opens a wait of an identity on a topic that was looked for.
    pub fn open_wait(
        &mut self,
        identity: &Identity,
        topic: &str,
        found: Option<Arc<Topic>>,
        params: &Params,
        secs: u64,
        at: Moment,
    ) -> (step: WaitStep)
        requires
            old(self)@.well_formed(),
            old(self)@.knows(*identity),
            topic_view(found) == recalled(old(self)@.topics, topic@),
        ensures
            final(self)@.well_formed(),
            wait_decided(
                old(self)@,
                final(self)@,
                *identity,
                topic@,
                params,
                secs,
                at,
                step,
            ),
    {
        let ghost pre = self@;
        let open: usize = self.count_waits(identity.id);
        if open >= self.config.max_waiters {
            return WaitStep::Refused(
                Reject::Waiters(self.config.max_waiters, self.config.max_wait_secs),
            );
        }
        let joined = match self.topic_for(identity, topic, found, at) {
            Ok(joined) => joined,
            Err(reject) => {
                return WaitStep::Refused(reject);
            },
        };
        assert(self@.topics[topic@] == joined@);
        let listening = subscribe(&joined.tx);
        let (shown, gap) = items(&joined, params, &self.config, at.now);
        if shown.len() > 0 {
            return WaitStep::Ready(page(topic, shown, gap, params, at.now));
        }
        let ghost mid = self@;
        self.waits.insert(identity.id, open + 1);
        assert(self@ == AppView {
            waits: pre.waits.insert(identity.id, (open + 1) as usize),
            ..mid
        });
        assert(AppView { waits: pre.waits, ..self@ } == mid);
        let secs_allowed: u64 = if secs <= self.config.max_wait_secs {
            secs
        } else {
            self.config.max_wait_secs
        };
        WaitStep::Block(Waiting { id: identity.id, secs: secs_allowed, listening, gap })
    }

    /// Opens a wait: checks who waits, and looks for the topic.
    pub fn wait(&mut self, topic: &str, params: &Params, secs: u64, at: Moment) -> (step: WaitStep)
        requires
            old(self)@.well_formed(),
        ensures
            final(self)@.well_formed(),
            exists|mid: AppView| #[trigger]
                both_sought(old(self)@, mid, text_of(params.name), topic@) && wait_opens(
                    mid,
                    final(self)@,
                    topic@,
                    params,
                    secs,
                    at,
                    step,
                ),
    {
        let admission = self.authenticate(&params.name, &params.pass);
        match admission {
            Err(reject) => {
                assert(both_sought(old(self)@, self@, text_of(params.name), topic@));
                WaitStep::Refused(reject)
            },
            Ok(identity) => {
                let found = self.find_topic(topic);
                let ghost mid = self@;
                assert(both_sought(old(self)@, mid, text_of(params.name), topic@));
                self.open_wait(&identity, topic, found, params, secs, at)
            },
        }
    }

    /// The answer to a wait that has ended: the messages that arrived, as far
    /// as they may be shown.
    pub fn wait_page(
        &self,
        topic: &str,
        params: &Params,
        arrived: &Vec<Arc<Message>>,
        gap: bool,
        now: u64,
    ) -> (reply: PageReply)
        ensures
            reply.says(
                topic@,
                shown_live(
                    arrived@,
                    params.min_age,
                    now,
                    page_limit(params.n, &self@.config),
                ),
                gap,
                params,
                now,
            ),
            wait_answered(self@.config, topic@, params, arrived@, gap, now, reply),
    {
        page(topic, live_items(arrived, params, &self.config, now), gap, params, now)
    }

    /// Ends a wait of an identity.
    pub fn release(&mut self, id: u64)
        requires
            old(self)@.well_formed(),
        ensures
            final(self)@.well_formed(),
            final(self)@ == released(old(self)@, id),
    {
        let open: usize = self.count_waits(id);
        if open <= 1 {
            self.waits.remove(&id);
        } else {
            self.waits.insert(id, open - 1);
        }
    }
}

// -------------------------------------------------------------------- laws

/// A wait blocks only if there is nothing to show, and then the identity
/// holds one wait more, within the bound; everyone else's are as before.
pub proof fn law_waits_are_counted(
    pre: AppView,
    post: AppView,
    topic: Seq<char>,
    params: Params,
    secs: u64,
    at: Moment,
    waiting: Waiting,
    other: u64,
)
    requires
        wait_opens(pre, post, topic, &params, secs, at, WaitStep::Block(waiting)),
    ensures
        shown(
            post.topics[topic].ring,
            params.after,
            params.min_age,
            at.now,
            page_limit(params.n, &pre.config),
        ).len() == 0,
        waiting.listening.channel() == post.topics[topic].tx,
        waiting.secs <= secs,
        waiting.secs <= pre.config.max_wait_secs,
        post.open_waits(waiting.id) == pre.open_waits(waiting.id) + 1,
        post.open_waits(waiting.id) <= pre.config.max_waiters,
        other != waiting.id ==> post.open_waits(other) == pre.open_waits(other),
{
}

/// A wait that does not block leaves the count of waits alone.
pub proof fn law_unblocked_waits_hold_nothing(
    pre: AppView,
    post: AppView,
    topic: Seq<char>,
    params: Params,
    secs: u64,
    at: Moment,
    step: WaitStep,
)
    requires
        wait_opens(pre, post, topic, &params, secs, at, step),
        !(step is Block),
    ensures
        post.waits == pre.waits,
{
}

/// Ending a wait undoes what beginning it did to the counts.
pub proof fn law_release_undoes_wait(
    pre: AppView,
    post: AppView,
    topic: Seq<char>,
    params: Params,
    secs: u64,
    at: Moment,
    waiting: Waiting,
)
    requires
        pre.well_formed(),
        wait_opens(pre, post, topic, &params, secs, at, WaitStep::Block(waiting)),
    ensures
        released(post, waiting.id).waits == pre.waits,
{
    assert(released(post, waiting.id).waits =~= pre.waits);
}

/// Whoever is told that too many waits are open is told a time within which
/// every one of them ends.
pub proof fn law_full_waits_say_when(
    pre: AppView,
    post: AppView,
    identity: Identity,
    topic: Seq<char>,
    params: Params,
    secs: u64,
    at: Moment,
    step: WaitStep,
    begun: (AppView, AppView, Seq<char>, Params, u64, Moment, Waiting),
)
    requires
        wait_decided(pre, post, identity, topic, &params, secs, at, step),
        pre.open_waits(identity.id) >= pre.config.max_waiters,
        begun.0.config == pre.config,
        wait_opens(
            begun.0,
            begun.1,
            begun.2,
            &begun.3,
            begun.4,
            begun.5,
            WaitStep::Block(begun.6),
        ),
    ensures
        step matches WaitStep::Refused(reject) && reject@.status() == 429 && (
        reject@.retry_after() matches Some(delay) && begun.6.secs <= delay),
{
}

/// Only whoever knows the passphrase of a remembered identity gets to wait.
pub proof fn law_waiting_takes_credentials(
    pre: AppView,
    mid: AppView,
    post: AppView,
    topic: Seq<char>,
    params: Params,
    secs: u64,
    at: Moment,
    step: WaitStep,
)
    requires
        both_sought(pre, mid, text_of(params.name), topic),
        wait_opens(mid, post, topic, &params, secs, at, step),
        !(step is Refused),
    ensures
        params.name matches Some(name) && params.pass matches Some(pass)
            && pre.identities.contains_key(name@) && pre.identities[name@].opens(pass@),
{
}

/// A read of a topic that is not held shows nothing, reports no gap, sends the
/// reader back to where it began and creates nothing.
pub proof fn law_unknown_topic_is_empty(
    pre: AppView,
    post: AppView,
    topic: Seq<char>,
    params: Params,
    now: u64,
    reply: PageReply,
)
    requires
        read_answered(pre, post, topic, &params, now, reply),
        !pre.topics.contains_key(topic),
    ensures
        reply.items@.len() == 0,
        !reply.gap,
        reply.next@ == "/?"@ + form(
            page_pairs(
                topic,
                match params.after {
                    Some(after) => after,
                    None => 0,
                },
                &params,
            ),
        ),
        post == pre,
{
    assert(pre.topics.remove(topic) =~= pre.topics);
}

/// A wait is a read that blocks: one that finds the topic and has something
/// to show at once is answered as a read would be.
pub proof fn law_ready_wait_is_a_read(
    pre: AppView,
    post: AppView,
    topic: Seq<char>,
    params: Params,
    secs: u64,
    at: Moment,
    reply: PageReply,
)
    requires
        wait_opens(pre, post, topic, &params, secs, at, WaitStep::Ready(reply)),
        pre.topics.contains_key(topic),
    ensures
        read_answered(pre, post, topic, &params, at.now, reply),
        post == pre,
{
}

/// A wait that blocks lasts as long as was asked for, unless that is longer
/// than any wait may be: then it lasts as long as it may.
pub proof fn law_waits_last_as_asked(
    pre: AppView,
    post: AppView,
    topic: Seq<char>,
    params: Params,
    secs: u64,
    at: Moment,
    waiting: Waiting,
)
    requires
        wait_opens(pre, post, topic, &params, secs, at, WaitStep::Block(waiting)),
    ensures
        secs <= pre.config.max_wait_secs ==> waiting.secs == secs,
        secs >= pre.config.max_wait_secs ==> waiting.secs == pre.config.max_wait_secs,
{
}

/// Of two waits, the one that was asked to last longer does not end sooner,
/// and the two last equally long only if both were asked to or both are cut.
pub proof fn law_longer_waits_last_longer(
    first: (AppView, AppView, Seq<char>, Params, u64, Moment, Waiting),
    second: (AppView, AppView, Seq<char>, Params, u64, Moment, Waiting),
)
    requires
        first.0.config == second.0.config,
        wait_opens(first.0, first.1, first.2, &first.3, first.4, first.5, WaitStep::Block(first.6)),
        wait_opens(
            second.0,
            second.1,
            second.2,
            &second.3,
            second.4,
            second.5,
            WaitStep::Block(second.6),
        ),
        first.4 < second.4,
    ensures
        first.6.secs <= second.6.secs,
        first.4 < first.0.config.max_wait_secs ==> first.6.secs < second.6.secs,
        second.4 <= first.0.config.max_wait_secs ==> second.6.secs - first.6.secs == second.4
            - first.4,
{
}

/// A wait is turned down for the number of waits exactly if the identity holds
/// as many open as it may, and then nothing changes.
pub proof fn law_too_many_waits(
    pre: AppView,
    post: AppView,
    identity: Identity,
    topic: Seq<char>,
    params: Params,
    secs: u64,
    at: Moment,
    step: WaitStep,
)
    requires
        wait_decided(pre, post, identity, topic, &params, secs, at, step),
    ensures
        pre.open_waits(identity.id) >= pre.config.max_waiters <==> (step matches WaitStep::Refused(
            reject,
        ) && reject@ is Waiters),
        step matches WaitStep::Refused(reject) ==> post == pre && (reject@ matches RejectView::Waiters(
            most,
            delay,
        ) ==> most == pre.config.max_waiters && delay == pre.config.max_wait_secs),
{
}

/// A wait that blocks is that of the identity in whose name it was asked for,
/// counts as one, and knows whether numbers behind the reader's place are
/// lost.
pub proof fn law_blocked_waits(
    pre: AppView,
    post: AppView,
    identity: Identity,
    topic: Seq<char>,
    params: Params,
    secs: u64,
    at: Moment,
    waiting: Waiting,
)
    requires
        post.well_formed(),
        wait_decided(pre, post, identity, topic, &params, secs, at, WaitStep::Block(waiting)),
    ensures
        waiting.id == identity.id,
        post.topics.contains_key(topic),
        waiting.listening.channel() == post.topics[topic].tx,
        post.waits.contains_key(identity.id),
        !pre.waits.contains_key(identity.id) ==> post.waits[identity.id] == 1,
        pre.waits.contains_key(identity.id) ==> post.waits[identity.id] == pre.waits[identity.id]
            + 1,
        waiting.gap <==> (params.after is Some && exists|lost: u64|
            params.after->0 < lost <= post.topics[topic].seq && !(#[trigger] keeps(
                post.topics[topic].ring,
                lost,
            ))),
{
    assert(pre.open_waits(identity.id) < pre.config.max_waiters);
    if let Some(after) = params.after {
        law_gap(post.topics[topic], post.config.max_n, after);
    }
}

/// Ending a wait ends one: the identity holds one less open, or none if it
/// held one or none, and everyone else as many as before.
pub proof fn law_release_ends_one(state: AppView, id: u64, other: u64)
    ensures
        state.open_waits(id) >= 1 ==> released(state, id).open_waits(id) == state.open_waits(id) - 1,
        state.open_waits(id) == 0 ==> released(state, id).open_waits(id) == 0,
        other != id ==> released(state, id).open_waits(other) == state.open_waits(other),
        released(state, id).waits.contains_key(id) <==> state.open_waits(id) > 1,
        released(state, id) == (AppView { waits: released(state, id).waits, ..state }),
{
}

/// A read without a place shows kept messages whose senders were registered as
/// long ago as was asked for, from the newest back, and leaves out none of
/// them but, when the page is full, those older than all that it holds. A page
/// holds as many as were asked for or else as are usual, and never more than
/// the most. Nothing counts as missed.
pub proof fn law_reads_show_the_newest(
    pre: AppView,
    post: AppView,
    topic: Seq<char>,
    params: Params,
    now: u64,
    reply: PageReply,
)
    requires
        pre.well_formed(),
        read_answered(pre, post, topic, &params, now, reply),
        post.topics.contains_key(topic),
        params.after is None,
    ensures
        ({
            let page = reply.items@;
            let ring = pre.topics[topic].ring;
            let asked = if params.n is Some {
                params.n->0
            } else {
                pre.config.default_n
            };
            &&& post == pre
            &&& !reply.gap
            &&& page.len() <= asked
            &&& page.len() <= pre.config.max_n
            &&& forall|i: int|
                0 <= i < page.len() ==> {
                    &&& ring.contains(#[trigger] page[i])
                    &&& page[i].seq is Some
                    &&& params.min_age matches Some(age) ==> age == 0 || page[i].sender_since + age
                        <= now
                }
            &&& forall|i: int, j: int|
                0 <= i < j < page.len() ==> (#[trigger] page[i]).seq->0 > (#[trigger] page[j]).seq->0
            &&& forall|k: int|
                0 <= k < ring.len() && (params.min_age is None || params.min_age->0 == 0 || (
                #[trigger] ring[k]).sender_since + params.min_age->0 <= now) ==> page.contains(
                    ring[k],
                ) || ((page.len() == asked || page.len() == pre.config.max_n) && forall|i: int|
                    0 <= i < page.len() ==> (#[trigger] page[i]).seq->0 > ring[k].seq->0)
        }),
{
    let n = page_limit(params.n, &pre.config);
    law_newest_page(pre.topics[topic], pre.config.max_n, params.min_age, now, n);
}

/// A read after a place shows kept messages behind it whose senders were
/// registered as long ago as was asked for, from the oldest on, and leaves out
/// none of them but, when the page is full, those newer than all that it
/// holds. It reports a gap exactly if some number behind the place is kept no
/// longer.
pub proof fn law_reads_go_on(
    pre: AppView,
    post: AppView,
    topic: Seq<char>,
    params: Params,
    after: u64,
    now: u64,
    reply: PageReply,
)
    requires
        pre.well_formed(),
        read_answered(pre, post, topic, &params, now, reply),
        post.topics.contains_key(topic),
        params.after == Some(after),
    ensures
        ({
            let page = reply.items@;
            let ring = pre.topics[topic].ring;
            let asked = if params.n is Some {
                params.n->0
            } else {
                pre.config.default_n
            };
            &&& post == pre
            &&& reply.gap <==> exists|lost: u64|
                after < lost <= pre.topics[topic].seq && !(#[trigger] keeps(ring, lost))
            &&& page.len() <= asked
            &&& page.len() <= pre.config.max_n
            &&& forall|i: int|
                0 <= i < page.len() ==> {
                    &&& ring.contains(#[trigger] page[i])
                    &&& page[i].seq is Some
                    &&& page[i].seq->0 > after
                    &&& params.min_age matches Some(age) ==> age == 0 || page[i].sender_since + age
                        <= now
                }
            &&& forall|i: int, j: int|
                0 <= i < j < page.len() ==> (#[trigger] page[i]).seq->0 < (#[trigger] page[j]).seq->0
            &&& forall|k: int|
                0 <= k < ring.len() && (#[trigger] ring[k]).seq->0 > after && (params.min_age is None
                    || params.min_age->0 == 0 || ring[k].sender_since + params.min_age->0 <= now)
                    ==> page.contains(ring[k]) || ((page.len() == asked || page.len()
                    == pre.config.max_n) && forall|i: int|
                    0 <= i < page.len() ==> (#[trigger] page[i]).seq->0 < ring[k].seq->0)
        }),
{
    let n = page_limit(params.n, &pre.config);
    law_following_page(pre.topics[topic], pre.config.max_n, after, params.min_age, now, n);
    law_gap(pre.topics[topic], pre.config.max_n, after);
}

/// The link of a page of the newest messages goes on after the first of them:
/// after the topic's latest, where no age was asked for.
pub proof fn law_newest_reads_lead_on(
    pre: AppView,
    post: AppView,
    topic: Seq<char>,
    params: Params,
    now: u64,
    reply: PageReply,
)
    requires
        pre.well_formed(),
        read_answered(pre, post, topic, &params, now, reply),
        post.topics.contains_key(topic),
        params.after is None,
        reply.items@.len() > 0,
    ensures
        reply.items@[0].seq is Some,
        pairs_in(reply.next@.skip(2))[0] == ("topic"@, topic),
        pairs_in(reply.next@.skip(2))[1] == ("after"@, decimal(reply.items@[0].seq->0 as nat)),
        forall|i: int|
            0 <= i < reply.items@.len() ==> (#[trigger] reply.items@[i]).seq->0
                <= reply.items@[0].seq->0,
        params.min_age is None ==> reply.items@[0].seq == Some(pre.topics[topic].seq),
{
    let n = page_limit(params.n, &pre.config);
    law_newest_page(pre.topics[topic], pre.config.max_n, params.min_age, now, n);
    law_newest_page_leads_on(pre.topics[topic], pre.config.max_n, params.min_age, now, n);
    law_page_link_reads_back(reply, topic, reply.items@, reply.gap, params, now);
}

/// Whoever has read the newest messages and goes on from there is shown
/// nothing, and has missed nothing, until the topic has another message.
pub proof fn law_read_up_to_date(
    first: (AppView, AppView, Params, u64, PageReply),
    second: (AppView, AppView, Params, u64, PageReply),
    topic: Seq<char>,
)
    requires
        first.0.well_formed(),
        read_answered(first.0, first.1, topic, &first.2, first.3, first.4),
        first.1.topics.contains_key(topic),
        first.2.after is None,
        first.2.min_age is None,
        first.4.items@.len() > 0,
        second.0.well_formed(),
        read_answered(second.0, second.1, topic, &second.2, second.3, second.4),
        second.1.topics.contains_key(topic),
        second.0.topics[topic].seq == first.0.topics[topic].seq,
        second.2.after == first.4.items@[0].seq,
    ensures
        second.4.items@.len() == 0,
        !second.4.gap,
{
    law_newest_reads_lead_on(first.0, first.1, topic, first.2, first.3, first.4);
    let seq = first.0.topics[topic].seq;
    law_nothing_follows_the_latest(
        second.0.topics[topic],
        second.0.config.max_n,
        seq,
        second.2.min_age,
        second.3,
        page_limit(second.2.n, &second.0.config),
    );
}

/// Whoever goes on by the link of one page of a topic after another is shown
/// each message once: the next page starts behind the last one.
pub proof fn law_pages_do_not_overlap(
    first: (AppView, AppView, Params, u64, PageReply),
    second: (AppView, AppView, Params, u64, PageReply),
    topic: Seq<char>,
    place: u64,
)
    requires
        first.0.well_formed(),
        read_answered(first.0, first.1, topic, &first.2, first.3, first.4),
        first.1.topics.contains_key(topic),
        pairs_in(first.4.next@.skip(2))[1] == ("after"@, decimal(place as nat)),
        second.0.well_formed(),
        read_answered(second.0, second.1, topic, &second.2, second.3, second.4),
        second.1.topics.contains_key(topic),
        second.2.after == Some(place),
    ensures
        forall|i: int, j: int|
            0 <= i < first.4.items@.len() && 0 <= j < second.4.items@.len() ==> (
            #[trigger] first.4.items@[i]).seq->0 < (#[trigger] second.4.items@[j]).seq->0,
{
    let page = first.4.items@;
    law_page_replies(first.4, topic, page, first.4.gap, first.2, first.3);
    let found = choose|found: u64|
        {
            &&& pairs_in(first.4.next@.skip(2))[1] == ("after"@, #[trigger] decimal(found as nat))
            &&& forall|i: int|
                0 <= i < page.len() && (#[trigger] page[i]).seq is Some ==> page[i].seq->0 <= found
        };
    if found != place {
        law_numerals_differ(found as nat, place as nat);
    }
    law_reads_go_on(second.0, second.1, topic, second.2, place, second.3, second.4);
    match first.2.after {
        None => law_reads_show_the_newest(first.0, first.1, topic, first.2, first.3, first.4),
        Some(after) => law_reads_go_on(
            first.0,
            first.1,
            topic,
            first.2,
            after,
            first.3,
            first.4,
        ),
    }
}

/// The answer to a wait shows the messages that arrived, in their order, from
/// senders registered as long ago as was asked for, and leaves out none of
/// them but those behind a full page.
pub proof fn law_waits_show_what_arrived(
    config: Config,
    topic: Seq<char>,
    params: Params,
    arrived: Seq<Arc<Message>>,
    gap: bool,
    now: u64,
    reply: PageReply,
)
    requires
        wait_answered(config, topic, &params, arrived, gap, now, reply),
    ensures
        reply.gap == gap,
        exists|at: Seq<int>|
            {
                let page = reply.items@;
                let asked = if params.n is Some {
                    params.n->0
                } else {
                    config.default_n
                };
                &&& #[trigger] at.len() == page.len()
                &&& at.len() <= asked
                &&& at.len() <= config.max_n
                &&& forall|i: int|
                    0 <= i < at.len() ==> {
                        &&& 0 <= #[trigger] at[i] < arrived.len()
                        &&& page[i] == arrived[at[i]]
                        &&& params.min_age matches Some(age) ==> age == 0 || page[i].sender_since
                            + age <= now
                    }
                &&& forall|i: int, j: int|
                    0 <= i < j < at.len() ==> #[trigger] at[i] < #[trigger] at[j]
                &&& forall|k: int|
                    0 <= k < arrived.len() && (params.min_age is None || params.min_age->0 == 0 || (
                    #[trigger] arrived[k]).sender_since + params.min_age->0 <= now) ==> at.contains(
                        k,
                    ) || ((at.len() == asked || at.len() == config.max_n) && forall|i: int|
                        0 <= i < at.len() ==> #[trigger] at[i] < k)
            },
{
    let n = page_limit(params.n, &config);
    let page = reply.items@;
    law_live_page(arrived, params.min_age, now, n);
    let min_age = params.min_age;
    let at = choose|at: Seq<int>|
        {
            &&& #[trigger] at.len() == page.len()
            &&& forall|i: int|
                0 <= i < at.len() ==> {
                    &&& 0 <= #[trigger] at[i] < arrived.len()
                    &&& page[i] == arrived[at[i]]
                    &&& min_age matches Some(age) ==> age == 0 || page[i].sender_since + age <= now
                }
            &&& forall|i: int, j: int|
                0 <= i < j < at.len() ==> #[trigger] at[i] < #[trigger] at[j]
            &&& forall|k: int|
                0 <= k < arrived.len() && (min_age is None || min_age->0 == 0 || (
                #[trigger] arrived[k]).sender_since + min_age->0 <= now) ==> at.contains(k) || (
                page.len() == n && forall|i: int| 0 <= i < at.len() ==> #[trigger] at[i] < k)
        };
    assert(at.len() == page.len());
}

/// Who waits is looked at first: a wait without known credentials is turned
/// down, and changes nothing.
pub proof fn law_wait_opening(
    mid: AppView,
    post: AppView,
    topic: Seq<char>,
    params: Params,
    secs: u64,
    at: Moment,
    step: WaitStep,
)
    requires
        wait_opens(mid, post, topic, &params, secs, at, step),
    ensures
        params.name is None || params.pass is None ==> post == mid && not_waiting(
            step,
            RejectView::Bad("name and pass are required; GET /register?name=NAME&pass=PASS first"@),
        ),
        params.name is Some && params.pass is Some ==> {
            let name = params.name->0@;
            let known = mid.identities.contains_key(name) && sha256(
                mid.identities[name].salt@ + encode_utf8(params.pass->0@),
            ) == mid.identities[name].hash@;
            &&& !known ==> post == mid && not_waiting(step, RejectView::Credentials)
            &&& known ==> wait_decided(
                mid,
                post,
                mid.identities[name],
                topic,
                &params,
                secs,
                at,
                step,
            ) && !not_waiting(step, RejectView::Credentials)
        },
{
    if text_of(params.name) is Some && text_of(params.pass) is Some {
        law_letting_in(known(mid, text_of(params.name)), params.pass->0@);
    }
}

/// A wait blocks only while no message is kept that a read would show: each
/// stands at or before the reader's place, or its sender is too young.
pub proof fn law_blocking_takes_silence(
    pre: AppView,
    post: AppView,
    identity: Identity,
    topic: Seq<char>,
    params: Params,
    secs: u64,
    at: Moment,
    waiting: Waiting,
    k: int,
)
    requires
        pre.well_formed(),
        post.well_formed(),
        wait_decided(pre, post, identity, topic, &params, secs, at, WaitStep::Block(waiting)),
        params.n is Some ==> params.n->0 >= 1,
        params.n is None ==> pre.config.default_n >= 1,
        0 <= k < post.topics[topic].ring.len(),
    ensures
        ({
            let message = post.topics[topic].ring[k];
            ||| params.after is Some && message.seq->0 <= params.after->0
            ||| params.min_age is Some && params.min_age->0 > 0 && at.now < message.sender_since
                + params.min_age->0
        }),
{
    let n = page_limit(params.n, &pre.config);
    let settled = post.topics[topic];
    let max_n = pre.config.max_n;
    assert(post.topics.contains_key(topic));
    match params.after {
        None => law_newest_page(settled, max_n, params.min_age, at.now, n),
        Some(after) => law_following_page(settled, max_n, after, params.min_age, at.now, n),
    }
}

/// A wait is answered at once only with messages, and only of a topic that is
/// there already; as long as anything is kept that a read would show, it does
/// not block.
pub proof fn law_ready_waits_show_messages(
    pre: AppView,
    post: AppView,
    identity: Identity,
    topic: Seq<char>,
    params: Params,
    secs: u64,
    at: Moment,
    reply: PageReply,
)
    requires
        wait_decided(pre, post, identity, topic, &params, secs, at, WaitStep::Ready(reply)),
    ensures
        reply.items@.len() > 0,
        pre.topics.contains_key(topic),
        post == pre,
        read_answered(pre, post, topic, &params, at.now, reply),
{
    if !pre.topics.contains_key(topic) {
        let ring = post.topics[topic].ring;
        reveal(Seq::filter);
        assert(ring =~= Seq::empty());
        assert(ring.reverse() =~= Seq::empty());
    }
}

/// A wait on a topic that is not there creates it and blocks, where the
/// identity has created fewer than its age allows; otherwise it is turned
/// down, for the topics and nothing else. A wait on a topic that is there is
/// never turned down, as long as the identity may hold one wait more.
pub proof fn law_waits_create_topics(
    pre: AppView,
    post: AppView,
    identity: Identity,
    topic: Seq<char>,
    params: Params,
    secs: u64,
    at: Moment,
    step: WaitStep,
)
    requires
        wait_decided(pre, post, identity, topic, &params, secs, at, step),
        pre.open_waits(identity.id) < pre.config.max_waiters,
    ensures
        ({
            let config = pre.config;
            let probation = config.probation_secs > 0 && at.now < identity.since
                + config.probation_secs;
            let allowed = if probation {
                config.probation_topics
            } else {
                config.max_topics_per_identity
            };
            &&& pre.topics.contains_key(topic) ==> !(step is Refused) && post.topics == pre.topics
                && post.identities == pre.identities
            &&& !pre.topics.contains_key(topic) && identity.topics < allowed ==> {
                &&& step is Block
                &&& post.topics.contains_key(topic)
                &&& post.topics[topic].seq == 0
                &&& post.topics[topic].ring.len() == 0
                &&& post.topics.remove(topic) == pre.topics.remove(topic)
                &&& post.identities[identity.name@].topics == identity.topics + 1
            }
            &&& !pre.topics.contains_key(topic) && identity.topics >= allowed ==> {
                &&& step matches WaitStep::Refused(reject) && (reject@ matches RejectView::Topics(
                    most,
                    _,
                ) && most == allowed)
                &&& post == pre
            }
            &&& post == AppView {
                topics: post.topics,
                identities: post.identities,
                waits: post.waits,
                ..pre
            }
        }),
{
    law_terms_go_by_age(pre.config, identity.since, at.now);
    match step {
        WaitStep::Ready(reply) => {
            law_ready_waits_show_messages(pre, post, identity, topic, params, secs, at, reply);
        },
        WaitStep::Block(_) => {
            assert(post.topics.remove(topic) =~= pre.topics.remove(topic));
        },
        WaitStep::Refused(_) => {},
    }
}

} // verus!
