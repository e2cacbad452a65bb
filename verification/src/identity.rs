//! Identities, their passphrases and their tiers.

use crate::bucket::Bucket;
use crate::config::Config;
use crate::digest::{hash, pass_digest, same_digest, sha256, Salt};
use crate::form::{form_text, law_plain_text_is_unchanged, plain_char};
use crate::number::Number;
use crate::reject::{Reject, RejectView};
use crate::text::chars_of;
use std::sync::Arc;
use vstd::prelude::*;
use vstd::utf8::encode_utf8;

verus! {

/// A registered identity. A change makes a new value of it.
#[derive(Debug)]
pub struct Identity {
    /// Tells registrations of one name apart.
    pub id: u64,
    pub name: String,
    /// The second of the registration.
    pub since: u64,
    pub salt: Salt,
    pub hash: [u8; 32],
    /// How many topics the identity has created.
    pub topics: usize,
    pub bucket: Bucket,
}

impl Identity {
    /// Whether `pass` is the passphrase that the identity was registered
    /// with, as far as digests tell.
    pub open spec fn opens(self, pass: Seq<char>) -> bool {
        pass_digest(self.salt@, pass) == self.hash@
    }

    /// Whether this is what a registration makes of a name and a passphrase,
    /// with some salt.
    pub open spec fn fresh(
        self,
        id: u64,
        name: Seq<char>,
        since: u64,
        pass: Seq<char>,
        bucket: Bucket,
    ) -> bool {
        &&& self.id == id
        &&& self.name@ == name
        &&& self.since == since
        &&& self.opens(pass)
        &&& self.topics == 0
        &&& self.bucket == bucket
    }

    /// A new identity.
    pub fn new(id: u64, name: String, since: u64, salt: Salt, pass: &str, bucket: Bucket) -> (r:
        Identity)
        ensures
            r.fresh(id, name@, since, pass@, bucket),
            r.salt == salt,
    {
        let digest = hash(salt.bytes(), pass);
        Identity { id, name, since, salt, hash: digest, topics: 0, bucket }
    }

    /// Whether `pass` is the identity's passphrase.
    pub fn accepts(&self, pass: &str) -> (r: bool)
        ensures
            r == self.opens(pass@),
    {
        same_digest(&hash(self.salt.bytes(), pass), &self.hash)
    }

    /// The identity with its bucket at another level.
    pub fn set_bucket(&self, bucket: Bucket) -> (r: Identity)
        ensures
            r == (Identity { bucket, ..*self }),
    {
        Identity {
            id: self.id,
            name: self.name.clone(),
            since: self.since,
            salt: self.salt,
            hash: self.hash,
            topics: self.topics,
            bucket,
        }
    }

    /// The identity with one topic more to its name.
    pub fn add_topic(&self) -> (r: Identity)
        requires
            self.topics < usize::MAX,
        ensures
            r == (Identity { topics: (self.topics + 1) as usize, ..*self }),
    {
        Identity {
            id: self.id,
            name: self.name.clone(),
            since: self.since,
            salt: self.salt,
            hash: self.hash,
            topics: self.topics + 1,
            bucket: self.bucket,
        }
    }
}

/// What a request with a name and a passphrase comes to, given what is
/// remembered under the name.
pub open spec fn admitted(found: Option<Identity>, pass: Seq<char>) -> Result<Identity, RejectView> {
    match found {
        Some(identity) => if identity.opens(pass) {
            Ok(identity)
        } else {
            Err(RejectView::Credentials)
        },
        None => Err(RejectView::Credentials),
    }
}

/// A result, with the value behind the pointer and the refusal's texts.
pub open spec fn plain<T>(r: Result<Arc<T>, Reject>) -> Result<T, RejectView> {
    match r {
        Ok(value) => Ok(*value),
        Err(reject) => Err(reject@),
    }
}

/// What an optional pointer points at.
pub open spec fn pointee<T>(found: Option<Arc<T>>) -> Option<T> {
    match found {
        Some(value) => Some(*value),
        None => None,
    }
}

/// Admits the identity that is remembered under a name, if `pass` is its
/// passphrase.
pub fn let_in(found: Option<Arc<Identity>>, pass: &str) -> (r: Result<Arc<Identity>, Reject>)
    ensures
        plain(r) == admitted(pointee(found), pass@),
{
    match found {
        Some(identity) => if identity.accepts(pass) {
            Ok(identity)
        } else {
            Err(Reject::Credentials)
        },
        None => Err(Reject::Credentials),
    }
}

/// The characters that a name is made of.
pub open spec fn name_char(c: char) -> bool {
    ||| '0' <= c <= '9'
    ||| 'A' <= c <= 'Z'
    ||| 'a' <= c <= 'z'
    ||| c == '_'
    ||| c == '-'
}

/// A name has one to thirty-two characters: letters, digits, underscores and
/// hyphens.
pub open spec fn is_name(name: Seq<char>) -> bool {
    &&& 1 <= name.len() <= 32
    &&& forall|i: int| 0 <= i < name.len() ==> name_char(#[trigger] name[i])
}

/// Whether `name` can name an identity.
pub fn valid_name(name: &str) -> (r: bool)
    ensures
        r == is_name(name@),
{
    let chars = chars_of(name);
    if chars.len() < 1 || chars.len() > 32 {
        return false;
    }
    let mut i: usize = 0;
    while i < chars.len()
        invariant
            i <= chars.len(),
            chars@ == name@,
            forall|j: int| 0 <= j < i ==> name_char(#[trigger] name@[j]),
        decreases chars.len() - i,
    {
        let c = chars[i];
        let fits = ('0' <= c && c <= '9') || ('A' <= c && c <= 'Z') || ('a' <= c && c <= 'z') || c == '_'
            || c == '-';
        if !fits {
            assert(!name_char(name@[i as int]));
            return false;
        }
        i = i + 1;
    }
    true
}

/// A passphrase has eight to one hundred and twenty-eight bytes.
pub open spec fn is_pass(pass: Seq<char>) -> bool {
    8 <= encode_utf8(pass).len() <= 128
}

/// Whether `pass` can be a passphrase.
pub fn valid_pass(pass: &str) -> (r: bool)
    ensures
        r == is_pass(pass@),
{
    let n: usize = pass.as_bytes().len();
    8 <= n && n <= 128
}

/// What an identity may do at its age.
#[derive(Debug)]
pub struct Tier {
    pub name: &'static str,
    pub interval: Number,
    pub burst: Number,
    pub topics: usize,
}

/// Whether an identity is in the probation that follows its registration.
pub open spec fn on_probation(config: &Config, since: u64, now: u64) -> bool {
    if now >= since {
        now - since < config.probation_secs
    } else {
        0 < config.probation_secs
    }
}

/// The topics that an identity may create at its age.
pub open spec fn topic_allowance(config: &Config, since: u64, now: u64) -> usize {
    if on_probation(config, since, now) {
        config.probation_topics
    } else {
        config.max_topics_per_identity
    }
}

/// The seconds between the posts of an identity at its age.
pub open spec fn post_interval(config: &Config, since: u64, now: u64) -> Number {
    if on_probation(config, since, now) {
        config.probation_interval_secs
    } else {
        config.post_interval_secs
    }
}

/// The posts that an identity may make at once at its age.
pub open spec fn post_burst(config: &Config, since: u64, now: u64) -> Number {
    if on_probation(config, since, now) {
        Number { bits: crate::number::ONE_BITS }
    } else {
        config.post_burst
    }
}

/// The name of an identity's tier at its age.
pub open spec fn tier_name(config: &Config, since: u64, now: u64) -> Seq<char> {
    if on_probation(config, since, now) {
        "probation"@
    } else {
        "established"@
    }
}

/// The tier of an identity that was registered at `since`.
pub fn tier_at(config: &Config, since: u64, now: u64) -> (r: Tier)
    ensures
        r.name@ == tier_name(config, since, now),
        r.interval == post_interval(config, since, now),
        r.burst == post_burst(config, since, now),
        r.topics == topic_allowance(config, since, now),
{
    let age: u64 = if now >= since {
        now - since
    } else {
        0
    };
    if age < config.probation_secs {
        Tier {
            name: "probation",
            interval: config.probation_interval_secs,
            burst: Number::one(),
            topics: config.probation_topics,
        }
    } else {
        Tier {
            name: "established",
            interval: config.post_interval_secs,
            burst: config.post_burst,
            topics: config.max_topics_per_identity,
        }
    }
}

/// The seconds until probation ends, as far as they can be counted.
pub open spec fn probation_left(config: &Config, since: u64, now: u64) -> u64 {
    let left = since + config.probation_secs - now;
    if left <= 0 {
        0
    } else if left > u64::MAX {
        u64::MAX
    } else {
        left as u64
    }
}

/// The seconds to wait before another topic can be created by an identity
/// that has created as many as it may. Where the end of probation raises the
/// allowance above what it has created, that is the time until then.
/// Otherwise it is the time after which an idle identity is forgotten and its
/// name can begin anew.
pub open spec fn topic_delay(config: &Config, since: u64, topics: usize, now: u64) -> u64 {
    if on_probation(config, since, now) && topics < config.max_topics_per_identity {
        probation_left(config, since, now)
    } else {
        config.identity_ttl_secs
    }
}

/// The seconds to wait before another topic can be created.
pub fn topic_wait(config: &Config, since: u64, topics: usize, now: u64) -> (r: u64)
    ensures
        r == topic_delay(config, since, topics, now),
{
    if now >= since {
        let age: u64 = now - since;
        if age < config.probation_secs && topics < config.max_topics_per_identity {
            config.probation_secs - age
        } else {
            config.identity_ttl_secs
        }
    } else if 0 < config.probation_secs && topics < config.max_topics_per_identity {
        match config.probation_secs.checked_add(since - now) {
            Some(left) => left,
            None => u64::MAX,
        }
    } else {
        config.identity_ttl_secs
    }
}

/// Whoever is told to wait for the end of probation may create a topic then,
/// and not before.
pub proof fn law_topic_delay_is_enough(config: Config, since: u64, topics: usize, now: u64, later: u64)
    requires
        on_probation(&config, since, now),
        topics >= config.probation_topics,
        topics < config.max_topics_per_identity,
        now <= later,
        since + config.probation_secs <= u64::MAX,
    ensures
        topics < topic_allowance(&config, since, later) <==> now + topic_delay(
            &config,
            since,
            topics,
            now,
        ) <= later,
{
}

/// Vesting goes by age alone, and no identity falls back: once established it
/// stays so.
pub proof fn law_established_for_good(config: Config, since: u64, now: u64, later: u64)
    requires
        !on_probation(&config, since, now),
        now <= later,
    ensures
        !on_probation(&config, since, later),
        tier_name(&config, since, later) == "established"@,
        topic_allowance(&config, since, later) == config.max_topics_per_identity,
        post_interval(&config, since, later) == config.post_interval_secs,
        post_burst(&config, since, later) == config.post_burst,
{
}

/// Probation lasts as long as the settings say, from the registration on.
pub proof fn law_probation_lasts(config: Config, since: u64, age: u64)
    requires
        since + age <= u64::MAX,
    ensures
        on_probation(&config, since, (since + age) as u64) <==> age < config.probation_secs,
{
}

/// A name stands in a link as it is.
pub proof fn law_names_are_plain(name: Seq<char>)
    requires
        is_name(name),
    ensures
        form_text(name) == name,
{
    assert forall|i: int| 0 <= i < name.len() implies plain_char(#[trigger] name[i]) by {
        assert(name_char(name[i]));
    }
    law_plain_text_is_unchanged(name);
}

/// A name is made of letters, digits, underscores and hyphens, at least one
/// and at most thirty-two of them, and everything so made is a name.
pub proof fn law_names(name: Seq<char>)
    ensures
        is_name(name) <==> 1 <= name.len() <= 32 && forall|i: int|
            0 <= i < name.len() ==> {
                ||| '0' <= #[trigger] name[i] <= '9'
                ||| 'A' <= name[i] <= 'Z'
                ||| 'a' <= name[i] <= 'z'
                ||| name[i] == '_'
                ||| name[i] == '-'
            },
{
    if is_name(name) {
        assert forall|i: int| 0 <= i < name.len() implies {
            ||| '0' <= #[trigger] name[i] <= '9'
            ||| 'A' <= name[i] <= 'Z'
            ||| 'a' <= name[i] <= 'z'
            ||| name[i] == '_'
            ||| name[i] == '-'
        } by {
            assert(name_char(name[i]));
        }
    }
}

/// A passphrase is as long as it may be, counted in bytes and not in
/// characters.
pub proof fn law_passphrases(pass: Seq<char>)
    ensures
        is_pass(pass) <==> encode_utf8(pass).len() >= 8 && encode_utf8(pass).len() < 129,
{
}

/// An identity is opened by whatever hashes, with its salt in front, to what
/// is stored.
pub proof fn law_opening(identity: Identity, pass: Seq<char>)
    ensures
        identity.opens(pass) <==> sha256(identity.salt@ + encode_utf8(pass)) == identity.hash@,
{
}

/// Whoever asks is let in exactly if the name is known and the passphrase
/// opens it, and then as the identity that is known.
pub proof fn law_letting_in(found: Option<Identity>, pass: Seq<char>)
    ensures
        admitted(found, pass) is Ok <==> (found matches Some(identity) && sha256(
            identity.salt@ + encode_utf8(pass),
        ) == identity.hash@),
        admitted(found, pass) matches Ok(identity) ==> found == Some(identity),
        admitted(found, pass) matches Err(reject) ==> reject is Credentials,
{
}

/// Up to the end of probation the terms are those of probation, with one post
/// at a time; from then on they are the established ones.
pub proof fn law_terms_go_by_age(config: Config, since: u64, now: u64)
    ensures
        config.probation_secs > 0 && now < since + config.probation_secs ==> {
            &&& tier_name(&config, since, now) == "probation"@
            &&& topic_allowance(&config, since, now) == config.probation_topics
            &&& post_interval(&config, since, now) == config.probation_interval_secs
            &&& post_burst(&config, since, now).bits == 0x3ff0_0000_0000_0000
        },
        config.probation_secs == 0 || now >= since + config.probation_secs ==> {
            &&& tier_name(&config, since, now) == "established"@
            &&& topic_allowance(&config, since, now) == config.max_topics_per_identity
            &&& post_interval(&config, since, now) == config.post_interval_secs
            &&& post_burst(&config, since, now) == config.post_burst
        },
{
}

/// Whom the end of probation does not help is told the time after which an
/// idle identity is forgotten.
pub proof fn law_topic_delay_otherwise(config: Config, since: u64, topics: usize, now: u64)
    ensures
        config.probation_secs == 0 || now >= since + config.probation_secs || topics
            >= config.max_topics_per_identity ==> topic_delay(&config, since, topics, now)
            == config.identity_ttl_secs,
        config.probation_secs > 0 && now < since + config.probation_secs && topics
            < config.max_topics_per_identity && since + config.probation_secs - now <= u64::MAX
            ==> topic_delay(&config, since, topics, now) == since + config.probation_secs - now,
        since + config.probation_secs - now > u64::MAX && topics < config.max_topics_per_identity
            ==> topic_delay(&config, since, topics, now) == u64::MAX,
{
}

/// A new identity has the name, the time and the number that it was given, has
/// created no topic, holds the bucket that it was given, and is opened by its
/// passphrase.
pub proof fn law_fresh_identities(
    identity: Identity,
    id: u64,
    name: Seq<char>,
    since: u64,
    pass: Seq<char>,
    bucket: Bucket,
)
    requires
        identity.fresh(id, name, since, pass, bucket),
    ensures
        identity.id == id,
        identity.name@ == name,
        identity.since == since,
        identity.topics == 0,
        identity.bucket == bucket,
        sha256(identity.salt@ + encode_utf8(pass)) == identity.hash@,
{
}

} // verus!
