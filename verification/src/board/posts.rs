//! Posts.

use super::registrations::{register_opens, RegisterStep};
use super::waits::{read_answered, wait_opens, WaitStep, Waiting};
use super::{
    authenticated, known, text_of, topic_settled, topic_sought, topic_view, App, AppView,
};
use crate::bucket::{Draw, Level, Rate};
use crate::clock::Moment;
use crate::config::Config;
use crate::digest::{
    bytes_of, law_posts_are_told_apart, post_bytes, post_digest, post_key, sha256,
};
use crate::form::pairs_in;
use crate::identity::{law_terms_go_by_age, plain, post_burst, post_interval, tier_at, Identity};
use crate::memory::{count_marks, put_identity, put_mark, put_topic, recalled, Address};
use crate::paging::{
    law_nothing_follows_the_latest, law_post_is_newest, law_post_is_next, law_ring_keeps_the_latest,
};
use crate::reject::{Reject, RejectView};
use crate::reply::{law_post_replies, read_link, string_or_empty, text_or_empty, PageReply, PostReply};
use crate::request::Params;
use crate::text::{decimal, law_numerals_differ};
use crate::topic::{is_young, lesser, page_limit, Delivery, Topic, TopicView};
use std::sync::Arc;
use vstd::prelude::*;
use vstd::utf8::encode_utf8;

verus! {

/// How far a post has come: the bucket whose level is awaited.
pub enum Stage {
    Identity,
    Global,
    Topic(Arc<Topic>),
}

/// A post on its way.
pub struct Posting {
    pub identity: Arc<Identity>,
    pub topic: String,
    pub content: String,
    pub pass: String,
    pub ephemeral: bool,
    pub key: Vec<u8>,
    pub at: Moment,
    pub stage: Stage,
}

/// Where a post stands.
pub enum PostStep {
    /// It is turned down.
    Refused(Reject),
    /// It was made before, and is answered without being made again.
    Repeated(PostReply),
    /// It goes on once the level of a bucket is known.
    Draw(Draw, Posting),
    /// It is made, and was sent to those that wait.
    Posted(PostReply, Delivery),
}

impl Posting {
    /// A post that the board can have under way.
    pub open spec fn fits(self, state: AppView) -> bool {
        &&& state.knows(*self.identity)
        &&& self.stage matches Stage::Topic(topic) ==> topic@.well_formed(state.config.max_n)
    }

    /// There is a number left for the message, if it needs one.
    pub open spec fn has_room(self) -> bool {
        self.stage matches Stage::Topic(topic) ==> self.ephemeral || topic.seq < u64::MAX
    }

    /// Whether there is a number left for the message, if it needs one.
    pub fn can_number(&self) -> (r: bool)
        ensures
            r == self.has_room(),
    {
        match &self.stage {
            Stage::Topic(topic) => self.ephemeral || topic.seq < u64::MAX,
            _ => true,
        }
    }
}

/// Whether a step turns a post down for the given reason.
pub open spec fn refused(step: PostStep, reject: RejectView) -> bool {
    step matches PostStep::Refused(given) && given@ == reject
}

/// The draw on an identity's own bucket.
pub open spec fn identity_draw(config: Config, identity: Identity, active: u64, at: Moment) -> Draw {
    Draw {
        bucket: identity.bucket,
        rate: Rate::Shared {
            interval: post_interval(&config, identity.since, at.now),
            budget: config.global_posts_per_sec,
            sharers: if active >= 1 {
                active
            } else {
                1
            },
        },
        burst: post_burst(&config, identity.since, at.now),
        at: at.clock,
    }
}

/// The draw on the bucket of the whole board.
pub open spec fn global_draw(state: AppView, at: Moment) -> Draw {
    Draw {
        bucket: state.global,
        rate: Rate::PerSecond(state.config.global_posts_per_sec),
        burst: state.config.global_posts_per_sec,
        at: at.clock,
    }
}

/// The draw on the bucket of a topic.
pub open spec fn topic_draw(config: Config, topic: TopicView, at: Moment) -> Draw {
    Draw {
        bucket: topic.bucket,
        rate: Rate::Every(config.topic_interval_secs),
        burst: config.topic_burst,
        at: at.clock,
    }
}

/// The refusal that some content deserves, if any.
pub open spec fn content_fault(config: Config, content: Seq<char>) -> Option<RejectView> {
    if content.len() == 0 {
        Some(RejectView::Bad("content is required"@))
    } else if encode_utf8(content).len() > config.max_content_bytes {
        Some(RejectView::ContentTooLong(config.max_content_bytes))
    } else {
        None
    }
}

/// Whether a post opens with `step`, given who was admitted, the post's
/// digest, whether the post was made before, the topic if it was found, and
/// how many identities are taken to be active.
pub open spec fn post_decided(
    config: Config,
    admission: Result<Identity, RejectView>,
    topic: Seq<char>,
    params: &Params,
    content: Seq<char>,
    at: Moment,
    key: Seq<u8>,
    repeated: bool,
    found: Option<TopicView>,
    active: u64,
    step: PostStep,
) -> bool {
    let pass = text_or_empty(params.pass);
    match (admission, content_fault(config, content)) {
        (Err(reject), _) => refused(step, reject),
        (Ok(_), Some(reject)) => refused(step, reject),
        (Ok(identity), None) => if repeated {
            let latest = match found {
                Some(topic) => topic.seq,
                None => 0,
            };
            step matches PostStep::Repeated(reply) && reply.says(
                None,
                topic,
                latest,
                config.max_wait_secs,
                identity.name@,
                pass,
                at.now,
            )
        } else {
            step matches PostStep::Draw(draw, posting) && {
                &&& draw == identity_draw(config, identity, active, at)
                &&& *posting.identity == identity
                &&& posting.topic@ == topic
                &&& posting.content@ == content
                &&& posting.pass@ == pass
                &&& posting.ephemeral == params.ephemeral
                &&& posting.key@ == key
                &&& posting.at == at
                &&& posting.stage is Identity
            }
        },
    }
}

/// Whether looking for an identity, a topic and an earlier post takes the
/// board from `pre` to `post`.
pub open spec fn post_sought(
    pre: AppView,
    post: AppView,
    name: Option<Seq<char>>,
    topic: Seq<char>,
    key: Seq<u8>,
) -> bool {
    &&& post == AppView {
        identities: post.identities,
        topics: post.topics,
        recent: post.recent,
        ..pre
    }
    &&& post.identities == pre.identities || (name is Some && post.identities
        == pre.identities.remove(name->0))
    &&& post.topics == pre.topics || post.topics == pre.topics.remove(topic)
    &&& post.recent == pre.recent || post.recent == pre.recent.remove(key)
}

/// What a post is recognised by, once it is known who posts.
pub open spec fn key_for(
    admission: Result<Identity, RejectView>,
    topic: Seq<char>,
    content: Seq<char>,
) -> Seq<u8> {
    match admission {
        Ok(identity) => post_digest(identity.name@, topic, content),
        Err(_) => Seq::empty(),
    }
}

/// Who is admitted with the credentials of a request.
pub open spec fn admission_of(state: AppView, params: &Params) -> Result<Identity, RejectView> {
    let name = text_of(params.name);
    authenticated(known(state, name), name, text_of(params.pass))
}

/// Whether a post opens with `step` and takes the board from `pre` to `post`.
/// The post was made before if the board still holds it.
pub open spec fn post_opens(
    pre: AppView,
    post: AppView,
    topic: Seq<char>,
    params: &Params,
    content: Seq<char>,
    at: Moment,
    step: PostStep,
) -> bool {
    let admission = admission_of(post, params);
    let key = key_for(admission, topic, content);
    &&& post_sought(pre, post, text_of(params.name), topic, key)
    &&& post_decided(
        pre.config,
        admission,
        topic,
        params,
        content,
        at,
        key,
        post.recent.contains(key),
        recalled(post.topics, topic),
        pre.active_counted,
        step,
    )
}

/// Whether the level of the identity's bucket takes the board from `pre` to
/// `post` and the post to `step`.
pub open spec fn identity_drawn(
    pre: AppView,
    post: AppView,
    posting: Posting,
    level: Level,
    step: PostStep,
) -> bool {
    let identity = Identity {
        bucket: posting.identity.bucket.after(level, posting.at.clock),
        ..*posting.identity
    };
    &&& post == AppView {
        identities: pre.identities.insert(identity.name@, identity),
        ..pre
    }
    &&& match level.outcome() {
        Err(secs) => refused(step, RejectView::Limited("identity"@, secs)),
        Ok(_) => step matches PostStep::Draw(draw, next) && {
            &&& draw == global_draw(pre, posting.at)
            &&& *next.identity == identity
            &&& next.stage is Global
            &&& next == (Posting { identity: next.identity, stage: next.stage, ..posting })
        },
    }
}

/// Whether the level of the board's bucket takes the board from `pre` to
/// `post` and the post, whose topic was looked for, to `step`.
pub open spec fn global_drawn(
    pre: AppView,
    post: AppView,
    posting: Posting,
    level: Level,
    step: PostStep,
) -> bool {
    let mid = AppView { global: pre.global.after(level, posting.at.clock), ..pre };
    match level.outcome() {
        Err(secs) => post == mid && refused(step, RejectView::Limited("global"@, secs)),
        Ok(_) => match step {
            PostStep::Refused(reject) => topic_settled(
                mid,
                post,
                *posting.identity,
                posting.topic@,
                posting.at,
                Err(reject@),
            ),
            PostStep::Draw(draw, next) => next.stage matches Stage::Topic(topic) && {
                &&& topic_settled(
                    mid,
                    post,
                    *posting.identity,
                    posting.topic@,
                    posting.at,
                    Ok(topic@),
                )
                &&& draw == topic_draw(pre.config, topic@, posting.at)
                &&& next == (Posting { stage: next.stage, ..posting })
            },
            _ => false,
        },
    }
}

/// Whether the level of the topic's bucket takes the board from `pre` to
/// `post` and the post to `step`.
pub open spec fn topic_drawn(
    pre: AppView,
    post: AppView,
    posting: Posting,
    topic: TopicView,
    level: Level,
    step: PostStep,
) -> bool {
    let drawn = topic.with_bucket(topic.bucket.after(level, posting.at.clock));
    match level.outcome() {
        Err(secs) => {
            &&& refused(step, RejectView::Limited("topic"@, secs))
            &&& post == AppView { topics: pre.topics.insert(posting.topic@, drawn), ..pre }
        },
        Ok(_) => step matches PostStep::Posted(reply, delivery) && {
            let message = delivery.sent();
            let grown = drawn.with_message(message, pre.config.max_n);
            &&& message.seq == topic.next_seq(posting.ephemeral)
            &&& message.ts == posting.at.now
            &&& message.sender@ == posting.identity.name@
            &&& message.sender_since == posting.identity.since
            &&& message.content@ == posting.content@
            &&& delivery.channel() == topic.tx
            &&& reply.says(
                Some(message.seq),
                posting.topic@,
                grown.seq,
                pre.config.max_wait_secs,
                posting.identity.name@,
                posting.pass@,
                posting.at.now,
            )
            &&& post == AppView {
                topics: pre.topics.insert(posting.topic@, grown),
                recent: pre.recent.insert(posting.key@),
                active: pre.active.insert(encode_utf8(posting.identity.name@)),
                active_counted: post.active_counted,
                sent: pre.sent.push((topic.tx, message)),
                ..pre
            }
        },
    }
}

/// Whether the level of the bucket that a post waits for takes the board from
/// `pre` to `post` and the post to `step`.
pub open spec fn resumed(
    pre: AppView,
    post: AppView,
    posting: Posting,
    level: Level,
    step: PostStep,
) -> bool {
    match posting.stage {
        Stage::Identity => identity_drawn(pre, post, posting, level, step),
        Stage::Global => exists|mid: AppView| #[trigger]
            topic_sought(pre, mid, posting.topic@) && global_drawn(mid, post, posting, level, step),
        Stage::Topic(topic) => topic_drawn(pre, post, posting, topic@, level, step),
    }
}

/// Putting away a well-formed topic keeps the topics well-formed.
proof fn lemma_topic_put(pre: AppView, post: AppView, name: Seq<char>, topic: TopicView)
    requires
        pre.well_formed(),
        topic.well_formed(pre.config.max_n),
        post.config == pre.config,
        post.bounds == pre.bounds,
        post.topics == pre.topics.insert(name, topic),
        post.identities == pre.identities,
        post.waits == pre.waits,
        post.next_id == pre.next_id,
    ensures
        post.well_formed(),
{
    assert forall|other: Seq<char>| #[trigger] post.topics.contains_key(other) implies post.topics[other].well_formed(
        post.config.max_n,
    ) by {
        if other != name {
            assert(pre.topics.contains_key(other));
        }
    }
}

/// Turns down content that cannot be posted.
pub fn screen(config: &Config, content: &str) -> (r: Result<(), Reject>)
    ensures
        match r {
            Ok(_) => content_fault(*config, content@) is None,
            Err(reject) => content_fault(*config, content@) == Some(reject@),
        },
{
    if content.is_empty() {
        return Err(Reject::Bad("content is required".to_owned()));
    }
    if content.as_bytes().len() > config.max_content_bytes {
        return Err(Reject::ContentTooLong(config.max_content_bytes));
    }
    Ok(())
}

/// Opens a post, once it is known who posts, whether the post was made
/// before, what the topic is and how many identities are active.
pub fn open_post(
    config: &Config,
    admission: Result<Arc<Identity>, Reject>,
    topic: &str,
    params: &Params,
    content: String,
    at: Moment,
    key: Vec<u8>,
    repeated: bool,
    found: Option<Arc<Topic>>,
    active: u64,
) -> (step: PostStep)
    ensures
        post_decided(
            *config,
            plain(admission),
            topic@,
            params,
            content@,
            at,
            key@,
            repeated,
            topic_view(found),
            active,
            step,
        ),
{
    let identity = match admission {
        Ok(identity) => identity,
        Err(reject) => {
            return PostStep::Refused(reject);
        },
    };
    if let Err(reject) = screen(config, content.as_str()) {
        return PostStep::Refused(reject);
    }
    let pass = string_or_empty(&params.pass);
    if repeated {
        let latest: u64 = match &found {
            Some(topic) => topic.seq,
            None => 0,
        };
        return PostStep::Repeated(
            PostReply::new(
                None,
                topic,
                latest,
                config.max_wait_secs,
                identity.name.as_str(),
                pass.as_str(),
                at.now,
            ),
        );
    }
    let tier = tier_at(config, identity.since, at.now);
    let sharers: u64 = if active >= 1 {
        active
    } else {
        1
    };
    let draw = Draw {
        bucket: identity.bucket,
        rate: Rate::Shared {
            interval: tier.interval,
            budget: config.global_posts_per_sec,
            sharers,
        },
        burst: tier.burst,
        at: at.clock,
    };
    PostStep::Draw(
        draw,
        Posting {
            identity,
            topic: topic.to_owned(),
            content,
            pass,
            ephemeral: params.ephemeral,
            key,
            at,
            stage: Stage::Identity,
        },
    )
}

impl App {
    /// Opens a post: checks who posts what, and whether it was posted before.
    /// The steps that follow are to be taken before any other request.
    pub fn post(&mut self, topic: &str, params: &Params, content: String, at: Moment) -> (step: PostStep)
        requires
            old(self)@.well_formed(),
        ensures
            final(self)@.well_formed(),
            step matches PostStep::Draw(draw, posting) ==> posting.fits(final(self)@),
            post_opens(old(self)@, final(self)@, topic@, params, content@, at, step),
    {
        let admission = self.authenticate(&params.name, &params.pass);
        let ghost mid = self@;
        let ghost given = plain(admission);
        let mut key: Vec<u8> = Vec::new();
        let mut repeated = false;
        let mut found: Option<Arc<Topic>> = None;
        let mut active: u64 = 0;
        if let Ok(identity) = &admission {
            if screen(&self.config, content.as_str()).is_ok() {
                key = post_key(identity.name.as_str(), topic, content.as_str());
                repeated = self.find_post(&key);
                if repeated {
                    found = self.find_topic(topic);
                } else {
                    active = count_marks(&self.active);
                }
            }
        }
        let ghost text = content@;
        assert(self@.identities == mid.identities);
        assert(admission_of(self@, params) == given);
        let step = open_post(
            &self.config,
            admission,
            topic,
            params,
            content,
            at,
            key,
            repeated,
            found,
            active,
        );
        assert(post_opens(old(self)@, self@, topic@, params, text, at, step));
        step
    }

    /// Goes on with a post once the level of the identity's bucket is known.
    pub fn identity_level(&mut self, posting: Posting, level: Level) -> (step: PostStep)
        requires
            old(self)@.well_formed(),
            posting.fits(old(self)@),
        ensures
            final(self)@.well_formed(),
            step matches PostStep::Draw(draw, next) ==> next.fits(final(self)@),
            identity_drawn(old(self)@, final(self)@, posting, level, step),
    {
        let mut bucket = posting.identity.bucket;
        let taken = bucket.take(level, posting.at.clock);
        let identity = Arc::new(posting.identity.set_bucket(bucket));
        put_identity(&mut self.identities, identity.name.clone(), identity.clone());
        assert(self@ == AppView {
            identities: old(self)@.identities.insert(identity.name@, *identity),
            ..old(self)@
        });
        match taken {
            Err(secs) => PostStep::Refused(Reject::Limited("identity", secs)),
            Ok(_) => {
                let draw = Draw {
                    bucket: self.global,
                    rate: Rate::PerSecond(self.config.global_posts_per_sec),
                    burst: self.config.global_posts_per_sec,
                    at: posting.at.clock,
                };
                PostStep::Draw(draw, Posting { identity, stage: Stage::Global, ..posting })
            },
        }
    }

    /// Goes on with a post once the level of the board's bucket is known, and
    /// the topic was looked for.
    pub fn global_level(
        &mut self,
        posting: Posting,
        level: Level,
        found: Option<Arc<Topic>>,
    ) -> (step: PostStep)
        requires
            old(self)@.well_formed(),
            posting.fits(old(self)@),
            topic_view(found) == recalled(old(self)@.topics, posting.topic@),
        ensures
            final(self)@.well_formed(),
            step matches PostStep::Draw(draw, next) ==> next.fits(final(self)@),
            global_drawn(old(self)@, final(self)@, posting, level, step),
    {
        let mut bucket = self.global;
        let taken = bucket.take(level, posting.at.clock);
        self.global = bucket;
        assert(self@ == AppView {
            global: old(self)@.global.after(level, posting.at.clock),
            ..old(self)@
        });
        match taken {
            Err(secs) => PostStep::Refused(Reject::Limited("global", secs)),
            Ok(_) => {
                let settled = self.topic_for(
                    &posting.identity,
                    posting.topic.as_str(),
                    found,
                    posting.at,
                );
                match settled {
                    Err(reject) => PostStep::Refused(reject),
                    Ok(topic) => {
                        let draw = Draw {
                            bucket: topic.bucket,
                            rate: Rate::Every(self.config.topic_interval_secs),
                            burst: self.config.topic_burst,
                            at: posting.at.clock,
                        };
                        PostStep::Draw(draw, Posting { stage: Stage::Topic(topic), ..posting })
                    },
                }
            },
        }
    }

    /// Goes on with a post once the level of the topic's bucket is known.
    pub fn topic_level(&mut self, posting: Posting, topic: Arc<Topic>, level: Level) -> (step: PostStep)
        requires
            old(self)@.well_formed(),
            topic@.well_formed(old(self)@.config.max_n),
            posting.ephemeral || topic.seq < u64::MAX,
        ensures
            final(self)@.well_formed(),
            !(step is Draw),
            topic_drawn(old(self)@, final(self)@, posting, topic@, level, step),
    {
        let mut bucket = topic.bucket;
        let taken = bucket.take(level, posting.at.clock);
        let drawn = topic.set_bucket(bucket);
        assert(drawn@.well_formed(self.config.max_n));
        match taken {
            Err(secs) => {
                let ghost after = drawn@;
                put_topic(&mut self.topics, posting.topic.clone(), Arc::new(drawn));
                proof {
                    lemma_topic_put(old(self)@, self@, posting.topic@, after);
                }
                PostStep::Refused(Reject::Limited("topic", secs))
            },
            Ok(_) => {
                let (grown, message) = drawn.publish(
                    self.config.max_n,
                    posting.ephemeral,
                    posting.at.now,
                    posting.identity.name.clone(),
                    posting.identity.since,
                    posting.content,
                );
                let reply = PostReply::new(
                    Some(message.seq),
                    posting.topic.as_str(),
                    grown.seq,
                    self.config.max_wait_secs,
                    posting.identity.name.as_str(),
                    posting.pass.as_str(),
                    posting.at.now,
                );
                let name = bytes_of(posting.identity.name.as_str());
                put_mark(&mut self.recent, posting.key);
                put_mark(&mut self.active, name);
                let ghost after = grown@;
                put_topic(&mut self.topics, posting.topic, Arc::new(grown));
                proof {
                    lemma_topic_put(old(self)@, self@, posting.topic@, after);
                }
                let delivery = self.outbox.send(&topic.tx, message);
                PostStep::Posted(reply, delivery)
            },
        }
    }

    /// Goes on with a post once the level of the bucket is known that the
    /// last step asked for.
    pub fn resume(&mut self, posting: Posting, level: Level) -> (step: PostStep)
        requires
            old(self)@.well_formed(),
            posting.fits(old(self)@),
            posting.has_room(),
        ensures
            final(self)@.well_formed(),
            step matches PostStep::Draw(draw, next) ==> next.fits(final(self)@),
            resumed(old(self)@, final(self)@, posting, level, step),
    {
        match &posting.stage {
            Stage::Identity => self.identity_level(posting, level),
            Stage::Global => {
                let found = self.find_topic(posting.topic.as_str());
                assert(topic_sought(old(self)@, self@, posting.topic@));
                self.global_level(posting, level, found)
            },
            Stage::Topic(topic) => {
                let topic = topic.clone();
                self.topic_level(posting, topic, level)
            },
        }
    }
}

// -------------------------------------------------------------------- laws

/// A post goes through three buckets, the identity's, the board's and the
/// topic's, in this order, and goes on only where the bucket yields a token.
/// Only behind the third is it made.
pub proof fn law_every_bucket_must_yield(
    pre: AppView,
    post: AppView,
    posting: Posting,
    level: Level,
    step: PostStep,
)
    requires
        resumed(pre, post, posting, level, step),
    ensures
        !level.yields() ==> step is Refused,
        step matches PostStep::Draw(draw, next) ==> match posting.stage {
            Stage::Identity => next.stage is Global,
            Stage::Global => next.stage is Topic,
            Stage::Topic(_) => false,
        },
        step is Posted ==> posting.stage is Topic && level.yields(),
        !(step is Repeated),
{
}

/// A bucket that does not yield says how long to wait.
pub proof fn law_empty_bucket_says_when(
    pre: AppView,
    post: AppView,
    posting: Posting,
    level: Level,
    step: PostStep,
)
    requires
        resumed(pre, post, posting, level, step),
        !level.yields(),
    ensures
        step matches PostStep::Refused(reject) && reject@.retry_after() == Some(level.delay)
            && reject@.status() == 429,
{
}

/// A post that is turned down adds no message anywhere, reaches nobody, and is
/// not taken for made when it is tried again.
pub proof fn law_refused_post_leaves_messages(
    pre: AppView,
    post: AppView,
    posting: Posting,
    level: Level,
    step: PostStep,
)
    requires
        resumed(pre, post, posting, level, step),
        step is Refused,
        posting.stage matches Stage::Topic(topic) ==> recalled(pre.topics, posting.topic@) == Some(
            topic@,
        ),
    ensures
        post.recent == pre.recent,
        post.active == pre.active,
        post.sent == pre.sent,
        forall|name: Seq<char>| #[trigger]
            post.topics.contains_key(name) ==> pre.topics.contains_key(name)
                && post.topics[name].ring == pre.topics[name].ring && post.topics[name].seq
                == pre.topics[name].seq,
{
}

/// A post that is made is the topic's next message, in the sender's name and
/// with the content that was sent, and is sent once, on the topic's channel;
/// one that is not kept gets no number and leaves the topic's messages as they
/// were.
pub proof fn law_posted_message(
    pre: AppView,
    post: AppView,
    posting: Posting,
    topic: TopicView,
    level: Level,
    reply: PostReply,
    delivery: Delivery,
)
    requires
        topic_drawn(pre, post, posting, topic, level, PostStep::Posted(reply, delivery)),
        posting.ephemeral || topic.seq < u64::MAX,
    ensures
        delivery.sent().sender@ == posting.identity.name@,
        delivery.sent().content@ == posting.content@,
        reply.seq == Some(delivery.sent().seq),
        !posting.ephemeral ==> delivery.sent().seq == Some((topic.seq + 1) as u64)
            && post.topics[posting.topic@].seq == topic.seq + 1,
        post.sent == pre.sent.push((topic.tx, delivery.sent())),
        posting.ephemeral ==> delivery.sent().seq is None && post.topics[posting.topic@].ring
            == topic.ring && post.topics[posting.topic@].seq == topic.seq,
{
}

/// A post touches no topic but its own.
pub proof fn law_other_topics_stay(
    pre: AppView,
    post: AppView,
    posting: Posting,
    level: Level,
    step: PostStep,
    other: Seq<char>,
)
    requires
        resumed(pre, post, posting, level, step),
        other != posting.topic@,
    ensures
        pre.topics.contains_key(other) == post.topics.contains_key(other),
        pre.topics.contains_key(other) ==> post.topics[other] == pre.topics[other],
{
}

/// A post draws on nobody's bucket but the sender's, and changes nothing else
/// of anyone else.
pub proof fn law_other_identities_stay(
    pre: AppView,
    post: AppView,
    posting: Posting,
    level: Level,
    step: PostStep,
    other: Seq<char>,
)
    requires
        resumed(pre, post, posting, level, step),
        other != posting.identity.name@,
    ensures
        pre.identities.contains_key(other) == post.identities.contains_key(other),
        pre.identities.contains_key(other) ==> post.identities[other] == pre.identities[other],
        post.ips == pre.ips,
        post.waits == pre.waits,
{
}

/// A read after a post that still finds the topic gives the post back: the
/// message is the first of the newest, and all there is after the messages
/// before it.
pub proof fn law_post_comes_back(
    pre: AppView,
    post: AppView,
    posting: Posting,
    topic: TopicView,
    level: Level,
    reply: PostReply,
    delivery: Delivery,
    params: Params,
    now: u64,
    later: AppView,
    page: PageReply,
)
    requires
        pre.well_formed(),
        topic.well_formed(pre.config.max_n),
        topic_drawn(pre, post, posting, topic, level, PostStep::Posted(reply, delivery)),
        !posting.ephemeral,
        topic.seq < u64::MAX,
        read_answered(post, later, posting.topic@, &params, now, page),
        later.topics.contains_key(posting.topic@),
        !is_young(*delivery.sent(), params.min_age, now),
        page_limit(params.n, &pre.config) >= 1,
    ensures
        params.after is None ==> page.items@.len() >= 1 && page.items@[0] == delivery.sent(),
        params.after == Some(topic.seq) ==> page.items@ == seq![delivery.sent()],
{
    let max_n = pre.config.max_n;
    let n = page_limit(params.n, &pre.config);
    let drawn = topic.with_bucket(topic.bucket.after(level, posting.at.clock));
    law_post_is_newest(drawn, delivery.sent(), max_n, params.min_age, now, n);
    law_post_is_next(drawn, delivery.sent(), max_n, params.min_age, now, n);
}

/// A post that was made is remembered by who sent what where.
pub proof fn law_posted_is_remembered(
    pre: AppView,
    post: AppView,
    posting: Posting,
    topic: TopicView,
    level: Level,
    reply: PostReply,
    delivery: Delivery,
)
    requires
        topic_drawn(pre, post, posting, topic, level, PostStep::Posted(reply, delivery)),
        posting.key@ == post_digest(posting.identity.name@, posting.topic@, posting.content@),
    ensures
        post.recent.contains(
            post_digest(
                delivery.sent().sender@,
                posting.topic@,
                delivery.sent().content@,
            ),
        ),
        post.active.contains(encode_utf8(delivery.sent().sender@)),
{
}

/// Only a post that is made is sent to those that wait.
pub proof fn law_only_made_posts_are_sent(
    pre: AppView,
    post: AppView,
    posting: Posting,
    level: Level,
    step: PostStep,
)
    requires
        resumed(pre, post, posting, level, step),
    ensures
        step matches PostStep::Posted(_, delivery) ==> post.sent == pre.sent.push(
            (delivery.channel(), delivery.sent()),
        ),
        !(step is Posted) ==> post.sent == pre.sent,
{
}

/// An identity draws on an equal share of the board's budget among those that
/// are taken to be active, or at the pace of its tier, whichever is slower.
pub proof fn law_budget_is_shared(
    pre: AppView,
    post: AppView,
    topic: Seq<char>,
    params: Params,
    content: Seq<char>,
    at: Moment,
    draw: Draw,
    posting: Posting,
)
    requires
        post_opens(pre, post, topic, &params, content, at, PostStep::Draw(draw, posting)),
    ensures
        draw.bucket == posting.identity.bucket,
        draw.rate == (Rate::Shared {
            interval: post_interval(&pre.config, posting.identity.since, at.now),
            budget: pre.config.global_posts_per_sec,
            sharers: if pre.active_counted >= 1 {
                pre.active_counted
            } else {
                1
            },
        }),
{
}

/// A post that the board holds is answered at once, whether it is to be kept
/// or not. Nothing is drawn from any bucket, nothing is sent, and nothing else
/// changes, unless the topic is found gone. The links go on after the topic's
/// latest message.
pub proof fn law_repeated_post_is_free(
    pre: AppView,
    post: AppView,
    topic: Seq<char>,
    params: Params,
    content: Seq<char>,
    at: Moment,
    step: PostStep,
)
    requires
        post_opens(pre, post, topic, &params, content, at, step),
        admission_of(post, &params) is Ok,
        content_fault(pre.config, content) is None,
        post.recent.contains(key_for(admission_of(post, &params), topic, content)),
    ensures
        step matches PostStep::Repeated(reply) && reply.ok && reply.duplicate && reply.seq is None
            && reply.next.read@ == read_link(
            topic,
            match recalled(post.topics, topic) {
                Some(topic) => topic.seq,
                None => 0,
            },
        ),
        topic_sought(pre, post, topic),
        post.sent == pre.sent,
{
    assert(post.identities == pre.identities);
    assert(post.recent == pre.recent);
}

/// An accepted post, made again while the board still holds it, is answered
/// as a duplicate, and reaches nobody again.
pub proof fn law_accepted_post_repeats(
    pre: AppView,
    between: AppView,
    post: AppView,
    posting: Posting,
    topic: TopicView,
    level: Level,
    reply: PostReply,
    delivery: Delivery,
    params: Params,
    at: Moment,
    step: PostStep,
)
    requires
        topic_drawn(pre, between, posting, topic, level, PostStep::Posted(reply, delivery)),
        posting.key@ == post_digest(posting.identity.name@, posting.topic@, posting.content@),
        content_fault(pre.config, posting.content@) is None,
        post_opens(between, post, posting.topic@, &params, posting.content@, at, step),
        admission_of(post, &params) matches Ok(identity) && identity.name@ == posting.identity.name@,
        post.recent == between.recent,
    ensures
        step matches PostStep::Repeated(again) && again.ok && again.duplicate && (
        post.topics.contains_key(posting.topic@) ==> again.next.read@ == read_link(
            posting.topic@,
            between.topics[posting.topic@].seq,
        )),
        topic_sought(between, post, posting.topic@),
        post.sent == between.sent,
{
    law_repeated_post_is_free(between, post, posting.topic@, params, posting.content@, at, step);
}

/// Another post of the same sender, to another topic or with other content,
/// is recognised by other bytes.
pub proof fn law_different_posts_differ(
    admission: Identity,
    topic: Seq<char>,
    content: Seq<char>,
    other_topic: Seq<char>,
    other_content: Seq<char>,
)
    requires
        topic != other_topic || content != other_content,
    ensures
        post_bytes(admission.name@, topic, content) != post_bytes(
            admission.name@,
            other_topic,
            other_content,
        ),
{
    if post_bytes(admission.name@, topic, content) == post_bytes(
        admission.name@,
        other_topic,
        other_content,
    ) {
        law_posts_are_told_apart(
            admission.name@,
            topic,
            content,
            admission.name@,
            other_topic,
            other_content,
        );
    }
}

/// Only whoever knows the passphrase of a remembered identity gets to post.
pub proof fn law_posting_takes_credentials(
    pre: AppView,
    post: AppView,
    topic: Seq<char>,
    params: Params,
    content: Seq<char>,
    at: Moment,
    step: PostStep,
)
    requires
        post_opens(pre, post, topic, &params, content, at, step),
        !(step is Refused),
    ensures
        params.name matches Some(name) && params.pass matches Some(pass)
            && pre.identities.contains_key(name@) && pre.identities[name@].opens(pass@),
{
}

/// A post that goes all the way ends in a message with the content, the
/// sender and the time of the request, after each of the three buckets has
/// given a token; and it is remembered.
pub proof fn law_post_arrives(
    states: (AppView, AppView, AppView, AppView, AppView, AppView),
    topic: Seq<char>,
    params: Params,
    content: Seq<char>,
    at: Moment,
    levels: (Level, Level, Level),
    draws: (Draw, Draw, Draw),
    postings: (Posting, Posting, Posting),
    joined: Arc<Topic>,
    reply: PostReply,
    delivery: Delivery,
)
    requires
        states.0.well_formed(),
        post_opens(
            states.0,
            states.1,
            topic,
            &params,
            content,
            at,
            PostStep::Draw(draws.0, postings.0),
        ),
        identity_drawn(
            states.1,
            states.2,
            postings.0,
            levels.0,
            PostStep::Draw(draws.1, postings.1),
        ),
        topic_sought(states.2, states.3, topic),
        global_drawn(
            states.3,
            states.4,
            postings.1,
            levels.1,
            PostStep::Draw(draws.2, postings.2),
        ),
        postings.2.stage == Stage::Topic(joined),
        topic_drawn(
            states.4,
            states.5,
            postings.2,
            joined@,
            levels.2,
            PostStep::Posted(reply, delivery),
        ),
    ensures
        params.name matches Some(name) && delivery.sent().sender@ == name@ && states.5.recent.contains(
            post_digest(name@, topic, content),
        ) && states.0.identities.contains_key(name@) && delivery.sent().sender_since
            == states.0.identities[name@].since,
        delivery.sent().content@ == content,
        delivery.sent().ts == at.now,
        delivery.sent().seq is None <==> params.ephemeral,
        reply.server_time == at.now,
        !reply.duplicate,
        levels.0.yields(),
        levels.1.yields(),
        levels.2.yields(),
{
}

/// Those that wait on a topic hear of a post to it: as long as the topic is
/// held, every post is sent on the channel that they listen on.
pub proof fn law_waiters_hear_posts(
    before: AppView,
    between: AppView,
    after: AppView,
    posting: Posting,
    next: Posting,
    levels: (Level, Level),
    draw: Draw,
    joined: Arc<Topic>,
    reply: PostReply,
    delivery: Delivery,
    waiting: Waiting,
)
    requires
        before.topics.contains_key(posting.topic@),
        waiting.listening.channel() == before.topics[posting.topic@].tx,
        global_drawn(before, between, posting, levels.0, PostStep::Draw(draw, next)),
        next.stage == Stage::Topic(joined),
        topic_drawn(
            between,
            after,
            next,
            joined@,
            levels.1,
            PostStep::Posted(reply, delivery),
        ),
    ensures
        delivery.channel() == waiting.listening.channel(),
        after.topics[posting.topic@].tx == waiting.listening.channel(),
{
}

// --------------------------------------------------------- a topic's history

/// What happens to a topic between two states of the board.
pub enum Event {
    /// A post to the topic is made, with the answer that it gets.
    Made(Posting, Level, PostReply, Delivery),
    /// Anything else.
    Else,
}

/// Whether an event takes the board from `pre` to `post`, while it holds the
/// topic.
pub open spec fn happened(pre: AppView, post: AppView, name: Seq<char>, event: Event) -> bool {
    &&& pre.topics.contains_key(name)
    &&& post.topics.contains_key(name)
    &&& post.config == pre.config
    &&& match event {
        Event::Made(posting, level, reply, delivery) => {
            &&& posting.topic@ == name
            &&& posting.ephemeral || pre.topics[name].seq < u64::MAX
            &&& topic_drawn(
                pre,
                post,
                posting,
                pre.topics[name],
                level,
                PostStep::Posted(reply, delivery),
            )
        },
        Event::Else => {
            &&& post.topics[name].seq == pre.topics[name].seq
            &&& post.topics[name].ring == pre.topics[name].ring
        },
    }
}

/// The numbers with which some events were answered, in their order.
pub open spec fn numbers(events: Seq<Event>) -> Seq<u64>
    decreases events.len(),
{
    if events.len() == 0 {
        Seq::empty()
    } else {
        let before = numbers(events.drop_last());
        match events.last() {
            Event::Made(posting, _, reply, _) => match reply.seq {
                Some(Some(seq)) => before.push(seq),
                _ => before,
            },
            Event::Else => before,
        }
    }
}

/// From the creation of a topic on, and as long as the board holds it, the
/// posts that are kept are numbered one, two, three and so on, in the order in
/// which they are made, and the topic counts them.
pub proof fn law_posts_are_numbered(states: Seq<AppView>, events: Seq<Event>, name: Seq<char>)
    requires
        states.len() == events.len() + 1,
        states[0].topics[name].seq == 0,
        forall|i: int|
            0 <= i < events.len() ==> #[trigger] happened(states[i], states[i + 1], name, events[i]),
    ensures
        numbers(events).len() == states.last().topics[name].seq,
        forall|i: int| 0 <= i < numbers(events).len() ==> #[trigger] numbers(events)[i] == i + 1,
    decreases events.len(),
{
    if events.len() > 0 {
        let k = events.len() - 1;
        let fewer = events.drop_last();
        assert forall|i: int| 0 <= i < fewer.len() implies #[trigger] happened(
            states.drop_last()[i],
            states.drop_last()[i + 1],
            name,
            fewer[i],
        ) by {
            assert(happened(states[i], states[i + 1], name, events[i]));
        }
        law_posts_are_numbered(states.drop_last(), fewer, name);
        assert(happened(states[k], states[k + 1], name, events[k]));
        assert(states.drop_last().last() == states[k]);
        assert(events.last() == events[k]);
    }
}

/// The topic then keeps exactly the latest of its numbered posts, as many as
/// the settings allow, in the order of their numbers.
pub proof fn law_latest_posts_are_kept(states: Seq<AppView>, events: Seq<Event>, name: Seq<char>)
    requires
        states.len() == events.len() + 1,
        states[0].topics[name].seq == 0,
        forall|i: int|
            0 <= i < events.len() ==> #[trigger] happened(states[i], states[i + 1], name, events[i]),
        states.last().well_formed(),
        states.last().topics.contains_key(name),
    ensures
        ({
            let all = numbers(events);
            let ring = states.last().topics[name].ring;
            &&& ring.len() == lesser(all.len() as int, states.last().config.max_n as int)
            &&& forall|i: int|
                0 <= i < ring.len() ==> (#[trigger] ring[i]).seq == Some(
                    all[all.len() - ring.len() + i],
                )
        }),
{
    law_posts_are_numbered(states, events, name);
}

/// What else a post does leaves the numbers of a topic that is found alone:
/// one that is turned down, one to another topic, and each step before the
/// last.
pub proof fn law_other_steps_number_nothing(
    pre: AppView,
    post: AppView,
    posting: Posting,
    level: Level,
    step: PostStep,
    name: Seq<char>,
)
    requires
        resumed(pre, post, posting, level, step),
        pre.topics.contains_key(name),
        post.topics.contains_key(name),
        !(step is Posted) || name != posting.topic@,
        posting.stage matches Stage::Topic(topic) ==> recalled(pre.topics, posting.topic@) == Some(
            topic@,
        ),
        posting.stage is Global && name == posting.topic@ ==> global_drawn(
            pre,
            post,
            posting,
            level,
            step,
        ),
    ensures
        happened(pre, post, name, Event::Else),
{
}

/// Reads leave the numbers of a topic alone, and so do waits and
/// registrations.
pub proof fn law_other_requests_number_nothing(
    pre: AppView,
    post: AppView,
    topic: Seq<char>,
    params: Params,
    secs: u64,
    at: Moment,
    ip: Address,
    page: PageReply,
    waiting: WaitStep,
    registering: RegisterStep,
    name: Seq<char>,
)
    requires
        pre.topics.contains_key(name),
        post.topics.contains_key(name),
        ({
            ||| read_answered(pre, post, topic, &params, at.now, page)
            ||| wait_opens(pre, post, topic, &params, secs, at, waiting)
            ||| register_opens(pre, post, ip, &params, at, registering)
        }),
    ensures
        happened(pre, post, name, Event::Else),
{
}

// ----------------------------------------------------- what posts are answered

/// The links in the answer to a post that is made read and wait on its topic
/// from the latest message on: of a post that is kept, from the post itself.
pub proof fn law_post_links_go_on_after_it(
    pre: AppView,
    post: AppView,
    posting: Posting,
    topic: TopicView,
    level: Level,
    reply: PostReply,
    delivery: Delivery,
)
    requires
        topic_drawn(pre, post, posting, topic, level, PostStep::Posted(reply, delivery)),
        posting.ephemeral || topic.seq < u64::MAX,
    ensures
        post.topics.contains_key(posting.topic@),
        ({
            let latest = post.topics[posting.topic@].seq;
            &&& pairs_in(reply.next.read@.skip(2)) == seq![
                ("topic"@, posting.topic@),
                ("after"@, decimal(latest as nat)),
            ]
            &&& pairs_in(reply.next.wait@.skip(2)) == seq![
                ("topic"@, posting.topic@),
                ("after"@, decimal(latest as nat)),
                ("wait"@, decimal(pre.config.max_wait_secs as nat)),
                ("name"@, posting.identity.name@),
                ("pass"@, posting.pass@),
            ]
            &&& !posting.ephemeral ==> delivery.sent().seq == Some(latest) && reply.seq == Some(
                Some(latest),
            ) && latest == topic.seq + 1
            &&& posting.ephemeral ==> delivery.sent().seq is None && reply.seq == Some(None::<u64>)
                && latest == topic.seq
        }),
        reply.ok,
        !reply.duplicate,
        reply.server_time == posting.at.now,
{
    law_post_replies(
        reply,
        Some(delivery.sent().seq),
        posting.topic@,
        post.topics[posting.topic@].seq,
        pre.config.max_wait_secs,
        posting.identity.name@,
        posting.pass@,
        posting.at.now,
    );
}

/// Whoever goes on by the link in the answer to a post is shown nothing, and
/// has missed nothing, until the topic has another message.
pub proof fn law_post_link_leads_behind_it(
    pre: AppView,
    post: AppView,
    posting: Posting,
    topic: TopicView,
    level: Level,
    reply: PostReply,
    delivery: Delivery,
    place: u64,
    between: AppView,
    later: AppView,
    params: Params,
    now: u64,
    page: PageReply,
)
    requires
        topic_drawn(pre, post, posting, topic, level, PostStep::Posted(reply, delivery)),
        posting.ephemeral || topic.seq < u64::MAX,
        pairs_in(reply.next.read@.skip(2))[1] == ("after"@, decimal(place as nat)),
        between.well_formed(),
        read_answered(between, later, posting.topic@, &params, now, page),
        later.topics.contains_key(posting.topic@),
        between.topics[posting.topic@].seq == post.topics[posting.topic@].seq,
        params.after == Some(place),
    ensures
        page.items@.len() == 0,
        !page.gap,
{
    law_post_links_go_on_after_it(pre, post, posting, topic, level, reply, delivery);
    let latest = post.topics[posting.topic@].seq;
    if place != latest {
        law_numerals_differ(place as nat, latest as nat);
    }
    law_nothing_follows_the_latest(
        between.topics[posting.topic@],
        between.config.max_n,
        place,
        params.min_age,
        now,
        page_limit(params.n, &between.config),
    );
}

/// Whoever goes on by the link in the answer to a post is shown the next post
/// to the topic that is kept, as all there is.
pub proof fn law_post_link_leads_to_the_next(
    first: (AppView, AppView, Posting, TopicView, Level, PostReply, Delivery),
    second: (AppView, AppView, Posting, TopicView, Level, PostReply, Delivery),
    place: u64,
    later: AppView,
    params: Params,
    now: u64,
    page: PageReply,
)
    requires
        topic_drawn(
            first.0,
            first.1,
            first.2,
            first.3,
            first.4,
            PostStep::Posted(first.5, first.6),
        ),
        first.2.ephemeral || first.3.seq < u64::MAX,
        pairs_in(first.5.next.read@.skip(2))[1] == ("after"@, decimal(place as nat)),
        second.0.well_formed(),
        second.3.well_formed(second.0.config.max_n),
        topic_drawn(
            second.0,
            second.1,
            second.2,
            second.3,
            second.4,
            PostStep::Posted(second.5, second.6),
        ),
        second.2.topic@ == first.2.topic@,
        second.3.seq == first.1.topics[first.2.topic@].seq,
        second.3.seq < u64::MAX,
        !second.2.ephemeral,
        read_answered(second.1, later, first.2.topic@, &params, now, page),
        later.topics.contains_key(first.2.topic@),
        params.after == Some(place),
        params.min_age is None,
        params.n is Some ==> params.n->0 >= 1,
        params.n is None ==> second.0.config.default_n >= 1,
    ensures
        page.items@ == seq![second.6.sent()],
{
    law_post_links_go_on_after_it(first.0, first.1, first.2, first.3, first.4, first.5, first.6);
    if place != second.3.seq {
        law_numerals_differ(place as nat, second.3.seq as nat);
    }
    law_post_comes_back(
        second.0,
        second.1,
        second.2,
        second.3,
        second.4,
        second.5,
        second.6,
        params,
        now,
        later,
        page,
    );
}

/// The links in the answer to a repeated post read and wait on its topic from
/// the latest message on, or from the beginning where the topic is gone.
pub proof fn law_repeated_post_links(
    pre: AppView,
    post: AppView,
    topic: Seq<char>,
    params: Params,
    content: Seq<char>,
    at: Moment,
    reply: PostReply,
)
    requires
        post_opens(pre, post, topic, &params, content, at, PostStep::Repeated(reply)),
    ensures
        reply.ok,
        reply.duplicate,
        reply.seq is None,
        reply.server_time == at.now,
        params.name is Some,
        params.pass is Some,
        post.identities.contains_key(params.name->0@),
        ({
            let latest = if post.topics.contains_key(topic) {
                post.topics[topic].seq
            } else {
                0
            };
            &&& pairs_in(reply.next.read@.skip(2)) == seq![
                ("topic"@, topic),
                ("after"@, decimal(latest as nat)),
            ]
            &&& pairs_in(reply.next.wait@.skip(2)) == seq![
                ("topic"@, topic),
                ("after"@, decimal(latest as nat)),
                ("wait"@, decimal(pre.config.max_wait_secs as nat)),
                ("name"@, post.identities[params.name->0@].name@),
                ("pass"@, params.pass->0@),
            ]
        }),
{
    let latest = if post.topics.contains_key(topic) {
        post.topics[topic].seq
    } else {
        0
    };
    law_post_replies(
        reply,
        None,
        topic,
        latest,
        pre.config.max_wait_secs,
        post.identities[params.name->0@].name@,
        params.pass->0@,
        at.now,
    );
}

/// A post is recognised by the digest of bytes that hold who sent what where:
/// it goes on exactly if the board does not hold that digest, and carries it
/// along.
pub proof fn law_posts_are_recognised(
    pre: AppView,
    post: AppView,
    topic: Seq<char>,
    params: Params,
    content: Seq<char>,
    at: Moment,
    step: PostStep,
)
    requires
        pre.well_formed(),
        post_opens(pre, post, topic, &params, content, at, step),
        !(step is Refused),
    ensures
        params.name is Some,
        ({
            let key = sha256(post_bytes(params.name->0@, topic, content));
            &&& step is Repeated <==> post.recent.contains(key)
            &&& step is Repeated ==> pre.recent.contains(key) && post.recent == pre.recent
            &&& step matches PostStep::Draw(_, posting) ==> posting.key@ == key && post.recent
                == pre.recent.remove(key)
        }),
{
    let key = post_digest(params.name->0@, topic, content);
    if !post.recent.contains(key) {
        assert(post.recent =~= pre.recent.remove(key));
    }
}

/// What a post carries along is what was asked for, at the time of the
/// request, in the name of who was let in.
pub proof fn law_posts_carry_the_request(
    pre: AppView,
    post: AppView,
    topic: Seq<char>,
    params: Params,
    content: Seq<char>,
    at: Moment,
    draw: Draw,
    posting: Posting,
)
    requires
        pre.well_formed(),
        post_opens(pre, post, topic, &params, content, at, PostStep::Draw(draw, posting)),
    ensures
        params.name is Some,
        params.pass is Some,
        *posting.identity == pre.identities[params.name->0@],
        posting.identity.name@ == params.name->0@,
        sha256(posting.identity.salt@ + encode_utf8(params.pass->0@)) == posting.identity.hash@,
        posting.topic@ == topic,
        posting.content@ == content,
        posting.pass@ == params.pass->0@,
        posting.ephemeral == params.ephemeral,
        posting.at == at,
        posting.stage is Identity,
{
}

/// A post that is made again, by the same sender, with the same content, to
/// the same topic, is a duplicate for as long as the board holds its digest,
/// and another one is none on its account.
pub proof fn law_made_posts_are_held(
    pre: AppView,
    post: AppView,
    posting: Posting,
    topic: TopicView,
    level: Level,
    reply: PostReply,
    delivery: Delivery,
    other: Seq<u8>,
)
    requires
        topic_drawn(pre, post, posting, topic, level, PostStep::Posted(reply, delivery)),
    ensures
        post.recent.contains(posting.key@),
        other != posting.key@ ==> post.recent.contains(other) == pre.recent.contains(other),
        post.active.contains(encode_utf8(posting.identity.name@)),
        post.identities == pre.identities,
        post.global == pre.global,
        post.next_id == pre.next_id,
{
}

/// Content is accepted exactly if there is some, and no more bytes of it than
/// the settings allow.
pub proof fn law_content(config: Config, content: Seq<char>)
    ensures
        content_fault(config, content) is None <==> content.len() >= 1 && encode_utf8(content).len()
            <= config.max_content_bytes,
        content.len() >= 1 && encode_utf8(content).len() > config.max_content_bytes
            ==> content_fault(config, content) == Some(
            RejectView::ContentTooLong(config.max_content_bytes),
        ),
        content.len() == 0 ==> content_fault(config, content) == Some(
            RejectView::Bad("content is required"@),
        ),
{
}

/// Who posts is looked at before what is posted, and that before whether it
/// was posted before: a post with known credentials is turned down at once
/// exactly if its content is not accepted.
pub proof fn law_post_opening(
    pre: AppView,
    post: AppView,
    topic: Seq<char>,
    params: Params,
    content: Seq<char>,
    at: Moment,
    step: PostStep,
)
    requires
        post_opens(pre, post, topic, &params, content, at, step),
    ensures
        params.name is None || params.pass is None ==> refused(
            step,
            RejectView::Bad("name and pass are required; GET /register?name=NAME&pass=PASS first"@),
        ),
        params.name is Some && params.pass is Some ==> {
            let known = post.identities.contains_key(params.name->0@) && sha256(
                post.identities[params.name->0@].salt@ + encode_utf8(params.pass->0@),
            ) == post.identities[params.name->0@].hash@;
            &&& !known ==> refused(step, RejectView::Credentials)
            &&& known && content.len() == 0 ==> refused(
                step,
                RejectView::Bad("content is required"@),
            )
            &&& known && content.len() > 0 && encode_utf8(content).len()
                > pre.config.max_content_bytes ==> refused(
                step,
                RejectView::ContentTooLong(pre.config.max_content_bytes),
            )
            &&& known && content.len() > 0 && encode_utf8(content).len()
                <= pre.config.max_content_bytes ==> !(step is Refused)
        },
{
}

/// The first draw of a post is on the sender's own bucket: it fills at the
/// pace of the sender's age, or by an equal share of the board's budget among
/// the active, and holds what that age allows.
pub proof fn law_first_draw(
    pre: AppView,
    post: AppView,
    topic: Seq<char>,
    params: Params,
    content: Seq<char>,
    at: Moment,
    draw: Draw,
    posting: Posting,
)
    requires
        post_opens(pre, post, topic, &params, content, at, PostStep::Draw(draw, posting)),
    ensures
        draw.bucket == posting.identity.bucket,
        draw.at == at.clock,
        draw.rate matches Rate::Shared { interval, budget, sharers } && {
            &&& budget == pre.config.global_posts_per_sec
            &&& sharers >= 1
            &&& pre.active_counted >= 1 ==> sharers == pre.active_counted
            &&& pre.active_counted == 0 ==> sharers == 1
            &&& pre.config.probation_secs > 0 && at.now < posting.identity.since
                + pre.config.probation_secs ==> interval == pre.config.probation_interval_secs
            &&& pre.config.probation_secs == 0 || at.now >= posting.identity.since
                + pre.config.probation_secs ==> interval == pre.config.post_interval_secs
        },
        pre.config.probation_secs > 0 && at.now < posting.identity.since
            + pre.config.probation_secs ==> draw.burst.bits == 0x3ff0_0000_0000_0000,
        pre.config.probation_secs == 0 || at.now >= posting.identity.since
            + pre.config.probation_secs ==> draw.burst == pre.config.post_burst,
{
    law_terms_go_by_age(pre.config, posting.identity.since, at.now);
}

/// The second draw of a post is on the board's bucket, and the third on the
/// topic's, each at its own pace and up to its own burst, at the time of the
/// request; the post itself stays as it was.
pub proof fn law_later_draws(
    pre: AppView,
    post: AppView,
    posting: Posting,
    level: Level,
    draw: Draw,
    next: Posting,
)
    requires
        resumed(pre, post, posting, level, PostStep::Draw(draw, next)),
    ensures
        draw.at == posting.at.clock,
        posting.stage is Identity ==> {
            &&& draw.bucket == pre.global
            &&& draw.rate == Rate::PerSecond(pre.config.global_posts_per_sec)
            &&& draw.burst == pre.config.global_posts_per_sec
        },
        posting.stage is Global ==> {
            &&& next.stage matches Stage::Topic(topic) && draw.bucket == topic.bucket
            &&& draw.rate == Rate::Every(pre.config.topic_interval_secs)
            &&& draw.burst == pre.config.topic_burst
            &&& next.identity == posting.identity
        },
        next.identity.name@ == posting.identity.name@,
        next.identity.since == posting.identity.since,
        next.topic == posting.topic,
        next.content == posting.content,
        next.pass == posting.pass,
        next.ephemeral == posting.ephemeral,
        next.key == posting.key,
        next.at == posting.at,
{
}

/// The bucket that was drawn on holds one token less, or what it was found to
/// hold where it has none to give, at the time of the request. No other bucket
/// of the board changes.
pub proof fn law_tokens_are_taken(
    pre: AppView,
    post: AppView,
    posting: Posting,
    level: Level,
    step: PostStep,
)
    requires
        resumed(pre, post, posting, level, step),
    ensures
        ({
            let left = if 0x3ff0_0000_0000_0000 <= level.tokens.bits <= 0x7ff0_0000_0000_0000 {
                level.spent
            } else {
                level.tokens
            };
            match posting.stage {
                Stage::Identity => {
                    &&& post.identities.contains_key(posting.identity.name@)
                    &&& post.identities[posting.identity.name@].bucket.tokens == left
                    &&& post.identities[posting.identity.name@].bucket.last == posting.at.clock
                    &&& post.identities[posting.identity.name@].since == posting.identity.since
                    &&& post.identities[posting.identity.name@].topics == posting.identity.topics
                    &&& post.global == pre.global
                    &&& post.topics == pre.topics
                },
                Stage::Global => {
                    &&& post.global.tokens == left
                    &&& post.global.last == posting.at.clock
                },
                Stage::Topic(_) => {
                    &&& post.topics.contains_key(posting.topic@)
                    &&& post.topics[posting.topic@].bucket.tokens == left
                    &&& post.topics[posting.topic@].bucket.last == posting.at.clock
                    &&& post.global == pre.global
                    &&& post.identities == pre.identities
                },
            }
        }),
{
}

/// A post is turned down for want of a token exactly if its bucket does not
/// hold a whole one, and is told by which bucket and for how long.
pub proof fn law_limits_are_named(
    pre: AppView,
    post: AppView,
    posting: Posting,
    level: Level,
    step: PostStep,
)
    requires
        resumed(pre, post, posting, level, step),
    ensures
        (step matches PostStep::Refused(reject) && reject@ is Limited) <==> !(0x3ff0_0000_0000_0000
            <= level.tokens.bits <= 0x7ff0_0000_0000_0000),
        step matches PostStep::Refused(reject) ==> (reject@ matches RejectView::Limited(scope, secs)
            ==> secs == level.delay && scope == (match posting.stage {
            Stage::Identity => "identity"@,
            Stage::Global => "global"@,
            Stage::Topic(_) => "topic"@,
        })),
{
}

/// A message that is kept is the last of its topic, behind what was kept of
/// the latest before it.
pub proof fn law_posted_ring(
    pre: AppView,
    post: AppView,
    posting: Posting,
    topic: TopicView,
    level: Level,
    reply: PostReply,
    delivery: Delivery,
)
    requires
        topic.ring.len() <= pre.config.max_n,
        topic_drawn(pre, post, posting, topic, level, PostStep::Posted(reply, delivery)),
    ensures
        ({
            let all = topic.ring.push(delivery.sent());
            let ring = post.topics[posting.topic@].ring;
            &&& !posting.ephemeral && all.len() <= pre.config.max_n ==> ring == all
            &&& !posting.ephemeral && all.len() > pre.config.max_n ==> ring == all.skip(1)
            &&& posting.ephemeral ==> ring == topic.ring
        }),
        post.topics[posting.topic@].tx == topic.tx,
        delivery.sent().ts == posting.at.now,
        delivery.sent().sender@ == posting.identity.name@,
        delivery.sent().sender_since == posting.identity.since,
        delivery.sent().content@ == posting.content@,
{
    law_ring_keeps_the_latest(topic, delivery.sent(), pre.config.max_n);
    if topic.ring.len() + 1 <= pre.config.max_n {
        assert(topic.ring.push(delivery.sent()).skip(0) =~= topic.ring.push(delivery.sent()));
    }
}

/// Behind the board's bucket a post joins its topic, or creates it where the
/// sender has created fewer than its age allows; otherwise it is turned down,
/// for the topics and nothing else.
pub proof fn law_posts_create_topics(
    pre: AppView,
    post: AppView,
    posting: Posting,
    level: Level,
    step: PostStep,
)
    requires
        global_drawn(pre, post, posting, level, step),
        0x3ff0_0000_0000_0000 <= level.tokens.bits <= 0x7ff0_0000_0000_0000,
    ensures
        ({
            let config = pre.config;
            let sender = posting.identity;
            let name = posting.topic@;
            let probation = config.probation_secs > 0 && posting.at.now < sender.since
                + config.probation_secs;
            let allowed = if probation {
                config.probation_topics
            } else {
                config.max_topics_per_identity
            };
            &&& pre.topics.contains_key(name) ==> {
                &&& step matches PostStep::Draw(_, next) && (next.stage matches Stage::Topic(joined)
                    && joined@ == pre.topics[name])
                &&& post.topics == pre.topics
                &&& post.identities == pre.identities
            }
            &&& !pre.topics.contains_key(name) && sender.topics < allowed ==> {
                &&& step matches PostStep::Draw(_, next) && (next.stage matches Stage::Topic(joined)
                    && joined@ == post.topics[name])
                &&& post.topics.contains_key(name)
                &&& post.topics[name].seq == 0
                &&& post.topics[name].ring.len() == 0
                &&& post.identities[sender.name@].topics == sender.topics + 1
                &&& post.identities[sender.name@].bucket == sender.bucket
            }
            &&& !pre.topics.contains_key(name) && sender.topics >= allowed ==> {
                &&& step matches PostStep::Refused(reject) && (reject@ matches RejectView::Topics(
                    most,
                    _,
                ) && most == allowed)
                &&& post.topics == pre.topics
                &&& post.identities == pre.identities
            }
        }),
{
    law_terms_go_by_age(pre.config, posting.identity.since, posting.at.now);
}

} // verus!
