//! The board: its state, and what each request does to it.
//!
//! A request that draws on a token bucket goes by steps. The board says what
//! is to be drawn; whoever does the arithmetic of the buckets answers with a
//! level, and the board goes on from there.

use crate::bucket::Bucket;
use crate::clock::Moment;
use crate::config::Config;
use crate::digest::sha256;
use crate::identity::{
    admitted, law_terms_go_by_age, law_topic_delay_otherwise, let_in, plain, pointee, post_burst, post_interval, tier_at, tier_name,
    topic_allowance, topic_delay, topic_wait, Identity, Tier,
};
use crate::memory::{
    addresses_held, addresses_limits, count_identities, count_topics, get_identity, get_topic,
    get_topic_or, has_mark, identities_counted, identities_held, identities_limits, marks_counted,
    marks_held, marks_limits, new_addresses, new_identities, new_marks, new_topics, put_identity,
    recalled, topics_capacity, topics_counted, topics_held, Address, LONGEST_SECS,
};
use crate::reject::{Reject, RejectView};
use crate::topic::{channel_capacity, Message, Outbox, Sendings, Topic, TopicView};
use moka::sync::Cache;
use std::collections::HashMap;
use std::sync::Arc;
use vstd::prelude::*;
use vstd::utf8::encode_utf8;

pub mod posts;
pub mod registrations;
pub mod waits;

verus! {

broadcast use vstd::std_specs::hash::group_hash_axioms;

/// The seconds for which an address that registers nobody is remembered.
pub const ADDRESS_SECS: u64 = 3600;

/// The seconds for which an identity that has posted counts as active.
pub const ACTIVE_SECS: u64 = 60;

/// The board.
pub struct App {
    config: Config,
    topics: Cache<String, Arc<Topic>>,
    identities: Cache<String, Arc<Identity>>,
    ips: Cache<Address, Bucket>,
    recent: Cache<Vec<u8>, ()>,
    active: Cache<Vec<u8>, ()>,
    global: Bucket,
    waits: HashMap<u64, usize>,
    next_id: u64,
    outbox: Outbox,
}

/// The bounds of the board's caches: for each the number of entries, and
/// where there is one the seconds after which an entry is dropped.
pub struct Bounds {
    pub topics: u64,
    pub identities: (u64, u64),
    pub ips: (u64, u64),
    pub recent: (u64, u64),
    pub active: (u64, u64),
}

/// The state of the board: what it has put away in each of its caches, and
/// the rest as it is.
#[verifier::ext_equal]
pub struct AppView {
    pub config: Config,
    pub bounds: Bounds,
    pub topics: Map<Seq<char>, TopicView>,
    pub identities: Map<Seq<char>, Identity>,
    pub ips: Map<Address, Bucket>,
    pub recent: Set<Seq<u8>>,
    pub active: Set<Seq<u8>>,
    /// How many identities are taken to be active.
    pub active_counted: u64,
    pub global: Bucket,
    pub waits: Map<u64, usize>,
    pub next_id: u64,
    /// All that was ever sent to those that wait.
    pub sent: Sendings,
}

impl View for App {
    type V = AppView;

    closed spec fn view(&self) -> AppView {
        AppView {
            config: self.config,
            bounds: Bounds {
                topics: topics_capacity(self.topics),
                identities: identities_limits(self.identities),
                ips: addresses_limits(self.ips),
                recent: marks_limits(self.recent),
                active: marks_limits(self.active),
            },
            topics: topics_held(self.topics),
            identities: identities_held(self.identities),
            ips: addresses_held(self.ips),
            recent: marks_held(self.recent),
            active: marks_held(self.active),
            active_counted: marks_counted(self.active),
            global: self.global,
            waits: self.waits@,
            next_id: self.next_id,
            sent: self.outbox@,
        }
    }
}

/// Settings with which a board can run: its channels and caches can be made.
pub open spec fn usable(config: Config) -> bool {
    &&& 1 <= config.max_n <= usize::MAX / 2
    &&& config.identity_ttl_secs <= LONGEST_SECS
    &&& config.dedupe_secs <= LONGEST_SECS
}

/// Whether a board can run with the settings.
pub fn is_usable(config: &Config) -> (r: bool)
    ensures
        r == usable(*config),
{
    1 <= config.max_n && config.max_n <= usize::MAX / 2
        && config.identity_ttl_secs <= LONGEST_SECS && config.dedupe_secs <= LONGEST_SECS
}

/// The bounds that the settings give to the caches.
pub open spec fn bounds_for(config: Config) -> Bounds {
    Bounds {
        topics: config.topic_capacity() as u64,
        identities: (config.max_identities, config.identity_ttl_secs),
        ips: (config.max_identities, ADDRESS_SECS),
        recent: (config.max_identities, config.dedupe_secs),
        active: (config.max_identities, ACTIVE_SECS),
    }
}

/// The most topics that any identity may ever have created.
pub open spec fn most_topics(config: Config) -> usize {
    if config.probation_topics >= config.max_topics_per_identity {
        config.probation_topics
    } else {
        config.max_topics_per_identity
    }
}

impl AppView {
    /// What holds of the board between requests.
    pub open spec fn well_formed(self) -> bool {
        &&& usable(self.config)
        &&& self.bounds == bounds_for(self.config)
        &&& forall|name: Seq<char>| #[trigger]
            self.topics.contains_key(name) ==> self.topics[name].well_formed(self.config.max_n)
        &&& forall|name: Seq<char>| #[trigger]
            self.identities.contains_key(name) ==> self.identities[name].name@ == name
                && self.knows(self.identities[name])
        &&& forall|id: u64| #[trigger]
            self.waits.contains_key(id) ==> 1 <= self.waits[id] <= self.config.max_waiters
    }

    /// What holds of every identity that was registered here.
    pub open spec fn knows(self, identity: Identity) -> bool {
        &&& identity.id < self.next_id
        &&& identity.topics <= most_topics(self.config)
    }

    /// The board after a look-up has found a topic gone.
    pub open spec fn without_topic(self, name: Seq<char>) -> AppView {
        AppView { topics: self.topics.remove(name), ..self }
    }

    /// The board after a look-up has found an identity gone.
    pub open spec fn without_identity(self, name: Seq<char>) -> AppView {
        AppView { identities: self.identities.remove(name), ..self }
    }

    /// The board after a look-up has found a post forgotten.
    pub open spec fn without_post(self, key: Seq<u8>) -> AppView {
        AppView { recent: self.recent.remove(key), ..self }
    }

    /// How many waits an identity holds open.
    pub open spec fn open_waits(self, id: u64) -> usize {
        if self.waits.contains_key(id) {
            self.waits[id]
        } else {
            0
        }
    }
}

// ------------------------------------------------------------ shared rules

/// What a request with the given credentials comes to, given what is
/// remembered under the name.
pub open spec fn authenticated(
    found: Option<Identity>,
    name: Option<Seq<char>>,
    pass: Option<Seq<char>>,
) -> Result<Identity, RejectView> {
    match (name, pass) {
        (Some(name), Some(pass)) => admitted(found, pass),
        _ => Err(
            RejectView::Bad(
                "name and pass are required; GET /register?name=NAME&pass=PASS first"@,
            ),
        ),
    }
}

/// What the board holds under an optional name.
pub open spec fn known(state: AppView, name: Option<Seq<char>>) -> Option<Identity> {
    match name {
        Some(name) => recalled(state.identities, name),
        None => None,
    }
}

/// Whether looking for an identity takes the board from `pre` to `post`.
pub open spec fn identity_sought(pre: AppView, post: AppView, name: Option<Seq<char>>) -> bool {
    post == pre || (name is Some && post == pre.without_identity(name->0))
}

/// Whether looking for a topic takes the board from `pre` to `post`.
pub open spec fn topic_sought(pre: AppView, post: AppView, name: Seq<char>) -> bool {
    post == pre || post == pre.without_topic(name)
}

/// The characters of an optional string.
pub open spec fn text_of(s: Option<String>) -> Option<Seq<char>> {
    match s {
        Some(s) => Some(s@),
        None => None,
    }
}

/// A result, with the views of the topic and of the refusal.
pub open spec fn topic_result(r: Result<Arc<Topic>, Reject>) -> Result<TopicView, RejectView> {
    match r {
        Ok(topic) => Ok(topic@),
        Err(reject) => Err(reject@),
    }
}

/// The view of an optional topic.
pub open spec fn topic_view(topic: Option<Arc<Topic>>) -> Option<TopicView> {
    match topic {
        Some(topic) => Some(topic@),
        None => None,
    }
}

/// A topic as it is created at a moment.
pub open spec fn fresh_topic(topic: TopicView, config: Config, at: Moment) -> bool {
    &&& topic.seq == 0
    &&& topic.ring == Seq::<Arc<Message>>::empty()
    &&& topic.bucket == (Bucket { tokens: config.topic_burst, last: at.clock })
    &&& channel_capacity(*topic.tx) == config.max_n
}

/// Whether an identity that has looked for a topic ends up with `result`, and
/// takes the board from `pre` to `post`. A topic that is there is joined.
/// Otherwise the identity creates it, if it has not yet created as many as its
/// age allows.
pub open spec fn topic_settled(
    pre: AppView,
    post: AppView,
    identity: Identity,
    name: Seq<char>,
    at: Moment,
    result: Result<TopicView, RejectView>,
) -> bool {
    let allowed = topic_allowance(&pre.config, identity.since, at.now);
    let grown = Identity { topics: (identity.topics + 1) as usize, ..identity };
    match recalled(pre.topics, name) {
        Some(topic) => result == Ok::<TopicView, RejectView>(topic) && post == pre,
        None => if identity.topics >= allowed {
            &&& result == Err::<TopicView, RejectView>(
                RejectView::Topics(
                    allowed,
                    topic_delay(&pre.config, identity.since, identity.topics, at.now),
                ),
            )
            &&& post == pre
        } else {
            &&& result is Ok
            &&& fresh_topic(result->Ok_0, pre.config, at)
            &&& post == AppView {
                topics: pre.topics.insert(name, result->Ok_0),
                identities: pre.identities.insert(identity.name@, grown),
                ..pre
            }
        },
    }
}

impl App {
    /// A board with nothing on it.
    pub fn new(config: Config, at: Moment) -> (r: App)
        requires
            usable(config),
        ensures
            r@.well_formed(),
            r@.config == config,
            r@.bounds == bounds_for(config),
            r@.topics == Map::<Seq<char>, TopicView>::empty(),
            r@.identities == Map::<Seq<char>, Identity>::empty(),
            r@.ips == Map::<Address, Bucket>::empty(),
            r@.recent == Set::<Seq<u8>>::empty(),
            r@.active == Set::<Seq<u8>>::empty(),
            r@.active_counted == 0,
            r.topics_counted() == 0,
            r.identities_counted() == 0,
            r@.sent.len() == 0,
            r@.global == (Bucket { tokens: config.global_posts_per_sec, last: at.clock }),
            r@.waits == Map::<u64, usize>::empty(),
            r@.next_id == 0,
    {
        let topics = new_topics(config.max_topics());
        let identities = new_identities(config.max_identities, config.identity_ttl_secs);
        let ips = new_addresses(config.max_identities, ADDRESS_SECS);
        let recent = new_marks(config.max_identities, config.dedupe_secs);
        let active = new_marks(config.max_identities, ACTIVE_SECS);
        let global = Bucket::full(config.global_posts_per_sec, at.clock);
        let r = App {
            config,
            topics,
            identities,
            ips,
            recent,
            active,
            global,
            waits: HashMap::new(),
            next_id: 0,
            outbox: Outbox::new(),
        };
        assert(r@.topics =~= Map::<Seq<char>, TopicView>::empty());
        assert(r@.identities =~= Map::<Seq<char>, Identity>::empty());
        assert(r@.ips =~= Map::<Address, Bucket>::empty());
        r
    }

    /// The settings.
    pub fn config(&self) -> (r: &Config)
        ensures
            *r == self@.config,
    {
        &self.config
    }

    /// The tier of an identity.
    pub fn tier(&self, identity: &Identity, now: u64) -> (r: Tier)
        ensures
            r.name@ == tier_name(&self@.config, identity.since, now),
            r.interval == post_interval(&self@.config, identity.since, now),
            r.burst == post_burst(&self@.config, identity.since, now),
            r.topics == topic_allowance(&self@.config, identity.since, now),
    {
        tier_at(&self.config, identity.since, now)
    }

    /// Looks for an identity.
    pub(crate) fn find_identity(&mut self, name: &str) -> (r: Option<Arc<Identity>>)
        ensures
            old(self)@.well_formed() ==> final(self)@.well_formed(),
            identity_sought(old(self)@, final(self)@, Some(name@)),
            pointee(r) == recalled(final(self)@.identities, name@),
    {
        let r = get_identity(&mut self.identities, name);
        assert(self@ == (match r {
            Some(_) => old(self)@,
            None => old(self)@.without_identity(name@),
        }));
        r
    }

    /// Looks for a topic.
    pub(crate) fn find_topic(&mut self, name: &str) -> (r: Option<Arc<Topic>>)
        ensures
            old(self)@.well_formed() ==> final(self)@.well_formed(),
            topic_sought(old(self)@, final(self)@, name@),
            topic_view(r) == recalled(final(self)@.topics, name@),
    {
        let r = get_topic(&mut self.topics, name);
        assert(self@ == (match r {
            Some(_) => old(self)@,
            None => old(self)@.without_topic(name@),
        }));
        r
    }

    /// Looks for a post that was made before.
    pub(crate) fn find_post(&mut self, key: &Vec<u8>) -> (r: bool)
        ensures
            old(self)@.well_formed() ==> final(self)@.well_formed(),
            final(self)@ == (if r {
                old(self)@
            } else {
                old(self)@.without_post(key@)
            }),
            r == final(self)@.recent.contains(key@),
    {
        let r = has_mark(&mut self.recent, key.as_slice());
        assert(self@ == (if r {
            old(self)@
        } else {
            old(self)@.without_post(key@)
        }));
        r
    }

    /// The identity with the given name, if the passphrase is its own.
    pub fn authenticate(&mut self, name: &Option<String>, pass: &Option<String>) -> (r: Result<
        Arc<Identity>,
        Reject,
    >)
        ensures
            old(self)@.well_formed() ==> final(self)@.well_formed(),
            identity_sought(old(self)@, final(self)@, text_of(*name)),
            name is None || pass is None ==> final(self)@ == old(self)@,
            plain(r) == authenticated(
                known(final(self)@, text_of(*name)),
                text_of(*name),
                text_of(*pass),
            ),
    {
        match (name, pass) {
            (Some(name), Some(pass)) => {
                let found = self.find_identity(name.as_str());
                let_in(found, pass.as_str())
            },
            _ => Err(
                Reject::Bad(
                    "name and pass are required; GET /register?name=NAME&pass=PASS first".to_owned(),
                ),
            ),
        }
    }

    /// The topic with the given name: the one that a look-up has found, or
    /// else one that is created on behalf of `identity`.
    pub fn topic_for(
        &mut self,
        identity: &Identity,
        name: &str,
        found: Option<Arc<Topic>>,
        at: Moment,
    ) -> (r: Result<Arc<Topic>, Reject>)
        requires
            old(self)@.well_formed(),
            old(self)@.knows(*identity),
            topic_view(found) == recalled(old(self)@.topics, name@),
        ensures
            final(self)@.well_formed(),
            r matches Ok(topic) ==> topic@.well_formed(old(self)@.config.max_n),
            topic_settled(
                old(self)@,
                final(self)@,
                *identity,
                name@,
                at,
                topic_result(r),
            ),
    {
        if let Some(topic) = found {
            return Ok(topic);
        }
        let allowed: usize = self.tier(identity, at.now).topics;
        if identity.topics >= allowed {
            let secs: u64 = topic_wait(&self.config, identity.since, identity.topics, at.now);
            return Err(Reject::Topics(allowed, secs));
        }
        put_identity(&mut self.identities, identity.name.clone(), Arc::new(identity.add_topic()));
        let fresh = Topic::new(self.config.max_n, Bucket::full(self.config.topic_burst, at.clock));
        let topic = get_topic_or(&mut self.topics, name.to_owned(), Arc::new(fresh));
        assert(topic_settled(old(self)@, self@, *identity, name@, at, Ok(topic@)));
        Ok(topic)
    }

    /// How many topics the board's cache counts.
    pub closed spec fn topics_counted(&self) -> u64 {
        topics_counted(self.topics)
    }

    /// How many identities the board's cache counts.
    pub closed spec fn identities_counted(&self) -> u64 {
        identities_counted(self.identities)
    }

    /// How many topics are remembered, as far as they were counted.
    pub fn topic_count(&self) -> (r: u64)
        ensures
            r == self.topics_counted(),
    {
        count_topics(&self.topics)
    }

    /// How many identities are remembered, as far as they were counted.
    pub fn identity_count(&self) -> (r: u64)
        ensures
            r == self.identities_counted(),
    {
        count_identities(&self.identities)
    }
}

/// Joining a topic that is there is free. Creating one counts, and an
/// identity that has created as many as its age allows creates no more, and is
/// told when it may.
pub proof fn law_topic_allowance(
    pre: AppView,
    post: AppView,
    identity: Identity,
    name: Seq<char>,
    at: Moment,
    result: Result<TopicView, RejectView>,
)
    requires
        topic_settled(pre, post, identity, name, at, result),
    ensures
        pre.topics.contains_key(name) ==> post == pre && result is Ok,
        !pre.topics.contains_key(name) && result is Ok ==> {
            &&& post.topics.contains_key(name)
            &&& post.identities.contains_key(identity.name@)
            &&& post.identities[identity.name@].topics == identity.topics + 1
            &&& post.identities[identity.name@].topics <= topic_allowance(
                &pre.config,
                identity.since,
                at.now,
            )
        },
        result is Err <==> !pre.topics.contains_key(name) && identity.topics >= topic_allowance(
            &pre.config,
            identity.since,
            at.now,
        ),
        result matches Err(reject) ==> post == pre && reject.retry_after() == Some(
            topic_delay(&pre.config, identity.since, identity.topics, at.now),
        ),
{
}

/// A board holds as many topics as fit its memory, and as many identities,
/// addresses and posts as the settings say. Identities and posts are dropped
/// after the times in the settings, addresses after an hour, and whoever
/// posted is active for a minute.
pub proof fn law_caches_are_bounded(state: AppView)
    requires
        state.well_formed(),
    ensures
        state.bounds.topics == state.config.topic_capacity() as u64,
        state.bounds.identities.0 == state.config.max_identities,
        state.bounds.identities.1 == state.config.identity_ttl_secs,
        state.bounds.ips.0 == state.config.max_identities,
        state.bounds.ips.1 == 60 * 60,
        state.bounds.recent.0 == state.config.max_identities,
        state.bounds.recent.1 == state.config.dedupe_secs,
        state.bounds.active.0 == state.config.max_identities,
        state.bounds.active.1 == 60,
{
}

/// A board runs with any settings under which a topic keeps a message, its
/// channel can be made, and entries can be kept for as long as they say.
pub proof fn law_usable_settings(config: Config)
    ensures
        usable(config) <==> config.max_n >= 1 && config.max_n <= usize::MAX / 2
            && config.identity_ttl_secs <= 1000 * 365 * 24 * 3600 && config.dedupe_secs <= 1000 * 365
            * 24 * 3600,
{
}

/// Credentials let in exactly whoever gives a name that is held and a
/// passphrase that hashes, with its salt in front, to what is stored. Without
/// a name or a passphrase the request is malformed, and otherwise the
/// credentials are wrong.
pub proof fn law_credentials(state: AppView, name: Option<Seq<char>>, pass: Option<Seq<char>>)
    ensures
        ({
            let result = authenticated(known(state, name), name, pass);
            &&& result is Ok <==> name is Some && pass is Some && state.identities.contains_key(
                name->0,
            ) && sha256(state.identities[name->0].salt@ + encode_utf8(pass->0))
                == state.identities[name->0].hash@
            &&& result matches Ok(identity) ==> identity == state.identities[name->0]
            &&& result matches Err(reject) ==> {
                &&& name is None || pass is None ==> reject == RejectView::Bad(
                    "name and pass are required; GET /register?name=NAME&pass=PASS first"@,
                )
                &&& name is Some && pass is Some ==> reject is Credentials
            }
        }),
{
}

/// A topic that is not there is created for an identity that has created fewer
/// than its age allows: as many as on probation up to its end, and then as
/// many as any identity. It is empty, with a full bucket, and counts as one
/// more of the identity's; nothing else changes.
pub proof fn law_topics_are_created(
    pre: AppView,
    post: AppView,
    identity: Identity,
    name: Seq<char>,
    at: Moment,
    result: Result<TopicView, RejectView>,
)
    requires
        topic_settled(pre, post, identity, name, at, result),
        !pre.topics.contains_key(name),
    ensures
        ({
            let config = pre.config;
            let probation = config.probation_secs > 0 && at.now < identity.since
                + config.probation_secs;
            let allowed = if probation {
                config.probation_topics
            } else {
                config.max_topics_per_identity
            };
            &&& result is Ok <==> identity.topics < allowed
            &&& result matches Ok(topic) ==> {
                &&& topic.seq == 0
                &&& topic.ring.len() == 0
                &&& topic.bucket.tokens == config.topic_burst
                &&& topic.bucket.last == at.clock
                &&& channel_capacity(*topic.tx) == config.max_n
                &&& post.topics == pre.topics.insert(name, topic)
                &&& post.identities.contains_key(identity.name@)
                &&& post.identities[identity.name@].topics == identity.topics + 1
                &&& post.identities[identity.name@].bucket == identity.bucket
                &&& post.identities[identity.name@].since == identity.since
                &&& post.identities[identity.name@].id == identity.id
                &&& post.identities[identity.name@].hash == identity.hash
                &&& post.identities[identity.name@].salt == identity.salt
                &&& post.identities.remove(identity.name@) == pre.identities.remove(identity.name@)
                &&& post == AppView { topics: post.topics, identities: post.identities, ..pre }
            }
            &&& result matches Err(reject) ==> {
                &&& post == pre
                &&& reject matches RejectView::Topics(most, delay) && {
                    &&& most == allowed
                    &&& !probation || identity.topics >= config.max_topics_per_identity ==> delay
                        == config.identity_ttl_secs
                    &&& probation && identity.topics < config.max_topics_per_identity
                        && identity.since + config.probation_secs - at.now <= u64::MAX ==> delay
                        == identity.since + config.probation_secs - at.now
                }
            }
        }),
{
    law_terms_go_by_age(pre.config, identity.since, at.now);
    law_topic_delay_otherwise(pre.config, identity.since, identity.topics, at.now);
    if result is Ok {
        assert(post.identities.remove(identity.name@) =~= pre.identities.remove(identity.name@));
    }
}

/// A topic that is there is joined as it is, whoever asks, and nothing
/// changes.
pub proof fn law_topics_are_joined(
    pre: AppView,
    post: AppView,
    identity: Identity,
    name: Seq<char>,
    at: Moment,
    result: Result<TopicView, RejectView>,
)
    requires
        topic_settled(pre, post, identity, name, at, result),
        pre.topics.contains_key(name),
    ensures
        result == Ok::<TopicView, RejectView>(pre.topics[name]),
        post == pre,
{
}

/// Looking for a topic, an identity or a post changes nothing but that what
/// was found gone is forgotten.
pub proof fn law_looking_changes_nothing(pre: AppView, post: AppView, name: Seq<char>, other: Seq<char>)
    ensures
        topic_sought(pre, post, name) ==> {
            &&& post == AppView { topics: post.topics, ..pre }
            &&& post.topics.contains_key(name) ==> post == pre
            &&& other != name ==> recalled(post.topics, other) == recalled(pre.topics, other)
        },
        identity_sought(pre, post, Some(name)) ==> {
            &&& post == AppView { identities: post.identities, ..pre }
            &&& post.identities.contains_key(name) ==> post == pre
            &&& other != name ==> recalled(post.identities, other) == recalled(
                pre.identities,
                other,
            )
        },
        identity_sought(pre, post, None) ==> post == pre,
{
}

} // verus!
