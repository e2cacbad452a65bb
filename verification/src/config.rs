//! The settings of a board, and what makes them usable.

use crate::number::Number;
use vstd::prelude::*;

verus! {

/// The memory set aside for one identity.
pub const IDENTITY_BYTES: u64 = 512;

/// The memory that a message takes beside its content.
pub const MESSAGE_BYTES: usize = 128;

/// The settings of a board.
#[derive(Clone, Debug)]
pub struct Config {
    pub bind: String,
    pub default_n: usize,
    pub max_n: usize,
    pub max_content_bytes: usize,
    pub max_query_bytes: usize,
    pub max_memory_bytes: u64,
    pub max_concurrency: usize,
    pub timeout_secs: u64,
    pub max_identities: u64,
    pub identity_ttl_secs: u64,
    pub registrations_per_hour: Number,
    pub trust_forwarded_for: bool,
    pub probation_secs: u64,
    pub probation_interval_secs: Number,
    pub probation_topics: usize,
    pub post_interval_secs: Number,
    pub post_burst: Number,
    pub max_topics_per_identity: usize,
    pub topic_interval_secs: Number,
    pub topic_burst: Number,
    pub global_posts_per_sec: Number,
    pub dedupe_secs: u64,
    pub max_wait_secs: u64,
    pub max_waiters: usize,
    pub otlp_endpoint: Option<String>,
}

impl Default for Config {
    fn default() -> (c: Self)
        ensures
            c.bind@ == "0.0.0.0:3000"@,
            c.default_n == 10,
            c.max_n == 100,
            c.max_content_bytes == 1024,
            c.max_query_bytes == 8192,
            c.max_memory_bytes == 1_073_741_824,
            c.max_concurrency == 1024,
            c.timeout_secs == 30,
            c.max_identities == 262_144,
            c.identity_ttl_secs == 2_592_000,
            c.registrations_per_hour.bits == 0x4008_0000_0000_0000,
            !c.trust_forwarded_for,
            c.probation_secs == 3600,
            c.probation_interval_secs.bits == 0x4072_c000_0000_0000,
            c.probation_topics == 1,
            c.post_interval_secs.bits == 0x4024_0000_0000_0000,
            c.post_burst.bits == 0x4014_0000_0000_0000,
            c.max_topics_per_identity == 20,
            c.topic_interval_secs.bits == 0x4000_0000_0000_0000,
            c.topic_burst.bits == 0x4024_0000_0000_0000,
            c.global_posts_per_sec.bits == 0x4049_0000_0000_0000,
            c.dedupe_secs == 300,
            c.max_wait_secs == 25,
            c.max_waiters == 4,
            c.otlp_endpoint is None,
    {
        Config {
            bind: "0.0.0.0:3000".to_owned(),
            default_n: 10,
            max_n: 100,
            max_content_bytes: 1024,
            max_query_bytes: 8192,
            max_memory_bytes: 1_073_741_824,
            max_concurrency: 1024,
            timeout_secs: 30,
            max_identities: 262_144,
            identity_ttl_secs: 2_592_000,
            // 3 an hour
            registrations_per_hour: Number::from_bits(0x4008_0000_0000_0000),
            trust_forwarded_for: false,
            probation_secs: 3600,
            // one every 300 seconds
            probation_interval_secs: Number::from_bits(0x4072_c000_0000_0000),
            probation_topics: 1,
            // one every 10 seconds
            post_interval_secs: Number::from_bits(0x4024_0000_0000_0000),
            // 5 at once
            post_burst: Number::from_bits(0x4014_0000_0000_0000),
            max_topics_per_identity: 20,
            // one every 2 seconds
            topic_interval_secs: Number::from_bits(0x4000_0000_0000_0000),
            // 10 at once
            topic_burst: Number::from_bits(0x4024_0000_0000_0000),
            // 50 a second
            global_posts_per_sec: Number::from_bits(0x4049_0000_0000_0000),
            dedupe_secs: 300,
            max_wait_secs: 25,
            max_waiters: 4,
            otlp_endpoint: None,
        }
    }
}

impl Config {
    /// The memory that one topic may take: every message that it keeps, each
    /// with the longest content.
    pub open spec fn topic_bytes(&self) -> int {
        (self.max_content_bytes + MESSAGE_BYTES) * self.max_n
    }

    /// The memory set aside for identities.
    pub open spec fn identity_budget(&self) -> int {
        self.max_identities * IDENTITY_BYTES
    }

    /// How many topics fit in the memory that the identities leave.
    pub open spec fn topic_capacity(&self) -> int {
        if self.topic_bytes() == 0 || self.max_memory_bytes < self.identity_budget() {
            0
        } else {
            (self.max_memory_bytes - self.identity_budget()) / self.topic_bytes()
        }
    }

    /// What is wrong with the settings: the first complaint, if any.
    pub open spec fn complaint(&self) -> Option<Seq<char>> {
        if self.max_n < 1 {
            Some("max_n must be at least 1"@)
        } else if self.topic_capacity() < 1 {
            Some("max_memory_bytes too small for identities plus one topic"@)
        } else if self.max_wait_secs >= self.timeout_secs {
            Some("max_wait_secs must be below timeout_secs"@)
        } else if self.probation_topics < 1 {
            Some("probation_topics must be at least 1 or nobody can create a topic"@)
        } else if self.max_waiters < 1 {
            Some("max_waiters must be at least 1"@)
        } else if !self.registrations_per_hour.positive() {
            Some("registrations_per_hour must be positive"@)
        } else if !self.probation_interval_secs.positive() {
            Some("probation_interval_secs must be positive"@)
        } else if !self.post_interval_secs.positive() {
            Some("post_interval_secs must be positive"@)
        } else if !self.post_burst.positive() {
            Some("post_burst must be positive"@)
        } else if !self.topic_interval_secs.positive() {
            Some("topic_interval_secs must be positive"@)
        } else if !self.topic_burst.positive() {
            Some("topic_burst must be positive"@)
        } else if !self.global_posts_per_sec.positive() {
            Some("global_posts_per_sec must be positive"@)
        } else {
            None
        }
    }

    /// How many topics the board keeps. Where the figures are too large to
    /// count, there is no room.
    pub fn max_topics(&self) -> (r: u64)
        ensures
            r == self.topic_capacity(),
    {
        let content: u64 = self.max_content_bytes as u64;
        let count: u64 = self.max_n as u64;
        let memory: u64 = self.max_memory_bytes;
        let ghost each = self.max_content_bytes + MESSAGE_BYTES;
        proof {
            assert(each * self.max_n >= 0) by (nonlinear_arith)
                requires
                    each >= 0,
            ;
            assert(each * self.max_n >= each || self.max_n == 0) by (nonlinear_arith)
                requires
                    each >= 0,
            ;
            assert(each * self.max_n == 0 || self.max_n != 0) by (nonlinear_arith);
        }
        let reserved: u64 = match self.max_identities.checked_mul(IDENTITY_BYTES) {
            Some(reserved) => reserved,
            None => {
                return 0;
            },
        };
        if memory < reserved || count == 0 {
            return 0;
        }
        let per_topic: Option<u64> = match content.checked_add(MESSAGE_BYTES as u64) {
            Some(each) => each.checked_mul(count),
            None => None,
        };
        match per_topic {
            Some(per_topic) => {
                if per_topic == 0 {
                    return 0;
                }
                (memory - reserved) / per_topic
            },
            None => {
                assert(self.topic_bytes() > u64::MAX);
                assert((memory - reserved) / self.topic_bytes() == 0) by {
                    vstd::arithmetic::div_mod::lemma_basic_div(
                        memory - reserved,
                        self.topic_bytes(),
                    );
                }
                0
            },
        }
    }

    /// Accepts the settings, or says what is wrong with them.
    pub fn validate(&self) -> (r: Result<(), String>)
        ensures
            match r {
                Ok(_) => self.complaint() is None,
                Err(message) => self.complaint() == Some(message@),
            },
    {
        if self.max_n < 1 {
            return Err("max_n must be at least 1".to_owned());
        }
        if self.max_topics() < 1 {
            return Err("max_memory_bytes too small for identities plus one topic".to_owned());
        }
        if self.max_wait_secs >= self.timeout_secs {
            return Err("max_wait_secs must be below timeout_secs".to_owned());
        }
        if self.probation_topics < 1 {
            return Err("probation_topics must be at least 1 or nobody can create a topic".to_owned());
        }
        if self.max_waiters < 1 {
            return Err("max_waiters must be at least 1".to_owned());
        }
        if !self.registrations_per_hour.is_positive() {
            return Err("registrations_per_hour must be positive".to_owned());
        }
        if !self.probation_interval_secs.is_positive() {
            return Err("probation_interval_secs must be positive".to_owned());
        }
        if !self.post_interval_secs.is_positive() {
            return Err("post_interval_secs must be positive".to_owned());
        }
        if !self.post_burst.is_positive() {
            return Err("post_burst must be positive".to_owned());
        }
        if !self.topic_interval_secs.is_positive() {
            return Err("topic_interval_secs must be positive".to_owned());
        }
        if !self.topic_burst.is_positive() {
            return Err("topic_burst must be positive".to_owned());
        }
        if !self.global_posts_per_sec.is_positive() {
            return Err("global_posts_per_sec must be positive".to_owned());
        }
        Ok(())
    }
}

/// The memory budget covers the identities and the topics together, each at
/// its largest, and has no room for one topic more.
pub proof fn law_memory_budget(config: Config)
    requires
        config.complaint() is None,
    ensures
        config.identity_budget() + config.topic_capacity() * config.topic_bytes()
            <= config.max_memory_bytes,
        config.max_memory_bytes < config.identity_budget() + (config.topic_capacity() + 1)
            * config.topic_bytes(),
{
    let rest = config.max_memory_bytes - config.identity_budget();
    let each = config.topic_bytes();
    assert(0 < each) by (nonlinear_arith)
        requires
            each != 0,
            each == (config.max_content_bytes + MESSAGE_BYTES) * config.max_n,
    ;
    vstd::arithmetic::div_mod::lemma_fundamental_div_mod(rest, each);
    assert(each * (rest / each) == (rest / each) * each) by (nonlinear_arith);
    assert((rest / each + 1) * each == (rest / each) * each + each) by (nonlinear_arith);
}

/// The topics that are kept are as many as fit: beside 512 bytes for every
/// identity, each takes room for all its messages, with 128 bytes beside the
/// content of each. With one more the memory would not do.
pub proof fn law_topics_fill_the_memory(config: Config)
    requires
        config.max_n >= 1,
    ensures
        config.topic_capacity() >= 0,
        config.topic_capacity() > 0 ==> 512 * config.max_identities + config.topic_capacity() * ((
        config.max_content_bytes + 128) * config.max_n) <= config.max_memory_bytes,
        512 * config.max_identities + (config.topic_capacity() + 1) * ((config.max_content_bytes
            + 128) * config.max_n) > config.max_memory_bytes,
{
    let each = (config.max_content_bytes + 128) * config.max_n;
    let reserved = 512 * config.max_identities;
    let rest = config.max_memory_bytes - reserved;
    assert(each >= 128) by (nonlinear_arith)
        requires
            config.max_n >= 1,
            each == (config.max_content_bytes + 128) * config.max_n,
    ;
    if config.max_memory_bytes >= reserved {
        vstd::arithmetic::div_mod::lemma_fundamental_div_mod(rest, each);
        vstd::arithmetic::div_mod::lemma_div_pos_is_pos(rest, each);
        assert(each * (rest / each) == (rest / each) * each) by (nonlinear_arith);
        assert((rest / each + 1) * each == (rest / each) * each + each) by (nonlinear_arith);
    } else {
        assert(config.topic_capacity() == 0);
        assert((0 + 1) * each == each) by (nonlinear_arith);
    }
}

/// A board that keeps no messages keeps no topics.
pub proof fn law_no_messages_no_topics(config: Config)
    requires
        config.max_n == 0,
    ensures
        config.topic_capacity() == 0,
{
    assert((config.max_content_bytes + MESSAGE_BYTES) * 0 == 0) by (nonlinear_arith);
}

/// Settings are accepted exactly if messages and at least one topic are kept,
/// a wait can end before the time-out, everyone can create a topic and wait,
/// and every rate, interval and burst is a positive number.
pub proof fn law_settings_are_accepted(config: Config)
    ensures
        config.complaint() is None <==> {
            &&& config.max_n >= 1
            &&& config.topic_capacity() >= 1
            &&& config.max_wait_secs < config.timeout_secs
            &&& config.probation_topics >= 1
            &&& config.max_waiters >= 1
            &&& 0 < config.registrations_per_hour.bits < 0x7ff0_0000_0000_0000
            &&& 0 < config.probation_interval_secs.bits < 0x7ff0_0000_0000_0000
            &&& 0 < config.post_interval_secs.bits < 0x7ff0_0000_0000_0000
            &&& 0 < config.post_burst.bits < 0x7ff0_0000_0000_0000
            &&& 0 < config.topic_interval_secs.bits < 0x7ff0_0000_0000_0000
            &&& 0 < config.topic_burst.bits < 0x7ff0_0000_0000_0000
            &&& 0 < config.global_posts_per_sec.bits < 0x7ff0_0000_0000_0000
        },
{
}

/// The settings are looked at in a fixed order, and the first that is wrong is
/// named.
pub proof fn law_complaints_are_true(config: Config)
    ensures
        ({
            let messages = config.max_n >= 1;
            let room = messages && config.topic_capacity() >= 1;
            let wait = room && config.max_wait_secs < config.timeout_secs;
            let topics = wait && config.probation_topics >= 1;
            let waiters = topics && config.max_waiters >= 1;
            let finite = |n: Number| 0 < n.bits < 0x7ff0_0000_0000_0000;
            let registrations = waiters && finite(config.registrations_per_hour);
            let probation = registrations && finite(config.probation_interval_secs);
            let posts = probation && finite(config.post_interval_secs);
            let burst = posts && finite(config.post_burst);
            let topic = burst && finite(config.topic_interval_secs);
            let topic_burst = topic && finite(config.topic_burst);
            let says = config.complaint();
            &&& !messages ==> says == Some("max_n must be at least 1"@)
            &&& messages && !room ==> says == Some(
                "max_memory_bytes too small for identities plus one topic"@,
            )
            &&& room && !wait ==> says == Some("max_wait_secs must be below timeout_secs"@)
            &&& wait && !topics ==> says == Some(
                "probation_topics must be at least 1 or nobody can create a topic"@,
            )
            &&& topics && !waiters ==> says == Some("max_waiters must be at least 1"@)
            &&& waiters && !registrations ==> says == Some(
                "registrations_per_hour must be positive"@,
            )
            &&& registrations && !probation ==> says == Some(
                "probation_interval_secs must be positive"@,
            )
            &&& probation && !posts ==> says == Some("post_interval_secs must be positive"@)
            &&& posts && !burst ==> says == Some("post_burst must be positive"@)
            &&& burst && !topic ==> says == Some("topic_interval_secs must be positive"@)
            &&& topic && !topic_burst ==> says == Some("topic_burst must be positive"@)
            &&& topic_burst && !finite(config.global_posts_per_sec) ==> says == Some(
                "global_posts_per_sec must be positive"@,
            )
        }),
{
}

} // verus!
