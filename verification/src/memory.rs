//! What the board remembers, in caches that forget.
//!
//! A cache drops entries for want of room and entries that have grown old, at
//! times of its own choosing. So what is stated of a cache is what a look-up
//! may still come upon: what was last put in under each key, until a look-up
//! finds it gone. What a look-up found gone stays gone until it is put in
//! again.

use crate::bucket::Bucket;
use crate::identity::Identity;
use crate::topic::{Topic, TopicView};
use moka::sync::Cache;
use std::sync::Arc;
use std::time::Duration;
use vstd::prelude::*;

verus! {

/// A concurrent cache with a bound on its entries and on their age.
#[verifier::external_type_specification]
#[verifier::external_body]
#[verifier::reject_recursive_types(K)]
#[verifier::reject_recursive_types(V)]
#[verifier::reject_recursive_types(S)]
pub struct ExCache<K, V, S>(moka::sync::Cache<K, V, S>);

/// A client's address: the version of the protocol and the address's bits.
pub type Address = (u8, u128);

/// The longest life that a cache can give an entry: a thousand years.
pub const LONGEST_SECS: u64 = 31_536_000_000;

/// What is held under a key.
pub open spec fn recalled<V>(held: Map<Seq<char>, V>, key: Seq<char>) -> Option<V> {
    if held.contains_key(key) {
        Some(held[key])
    } else {
        None
    }
}

// ------------------------------------------------------------------ topics

/// What was last put in under each topic's name and not found gone since.
pub uninterp spec fn topics_held(cache: Cache<String, Arc<Topic>>) -> Map<Seq<char>, TopicView>;

/// The number of topics that the cache was made for.
pub uninterp spec fn topics_capacity(cache: Cache<String, Arc<Topic>>) -> u64;

/// How many topics the cache counts: the number that it last came to when it
/// saw to its entries, which it does as entries are looked up and put in. It
/// may lag behind what the cache holds.
pub uninterp spec fn topics_counted(cache: Cache<String, Arc<Topic>>) -> u64;

/// `Cache::entry_count` gives the number that the cache counts, and leaves it.
#[verifier::external_body]
pub(crate) fn count_topics(cache: &Cache<String, Arc<Topic>>) -> (r: u64)
    ensures
        r == topics_counted(*cache),
{
    cache.entry_count()
}

/// `Cache::new` makes an empty cache for so many entries.
#[verifier::external_body]
pub(crate) fn new_topics(capacity: u64) -> (r: Cache<String, Arc<Topic>>)
    ensures
        topics_held(r).dom() == Set::<Seq<char>>::empty(),
        topics_capacity(r) == capacity,
        topics_counted(r) == 0,
{
    Cache::new(capacity)
}

/// `Cache::get` finds what was last put in under the key, or nothing: then
/// the cache has dropped the entry, or the entry has outlived its time, and
/// only putting it in again brings it back. Which of the two is not stated.
#[verifier::external_body]
pub(crate) fn get_topic(cache: &mut Cache<String, Arc<Topic>>, name: &str) -> (r: Option<Arc<Topic>>)
    ensures
        topics_capacity(*final(cache)) == topics_capacity(*old(cache)),
        match r {
            Some(topic) => topics_held(*old(cache)).contains_key(name@) && topics_held(
                *old(cache),
            )[name@] == topic@ && topics_held(*final(cache)) == topics_held(*old(cache)),
            None => topics_held(*final(cache)) == topics_held(*old(cache)).remove(name@),
        },
{
    cache.get(name)
}

/// `Cache::get_with` finds what was last put in under the key; if the cache
/// has dropped it, it puts in the value offered and gives that back.
#[verifier::external_body]
pub(crate) fn get_topic_or(cache: &mut Cache<String, Arc<Topic>>, name: String, offered: Arc<Topic>) -> (r:
    Arc<Topic>)
    ensures
        topics_capacity(*final(cache)) == topics_capacity(*old(cache)),
        ({
            ||| r == offered && topics_held(*final(cache)) == topics_held(*old(cache)).insert(
                name@,
                offered@,
            )
            ||| topics_held(*old(cache)).contains_key(name@) && topics_held(*old(cache))[name@] == r@
                && topics_held(*final(cache)) == topics_held(*old(cache))
        }),
{
    cache.get_with(name, || offered)
}

/// `Cache::insert` puts a value in under the key, in place of any other.
#[verifier::external_body]
pub(crate) fn put_topic(cache: &mut Cache<String, Arc<Topic>>, name: String, topic: Arc<Topic>)
    ensures
        topics_held(*final(cache)) == topics_held(*old(cache)).insert(name@, topic@),
        topics_capacity(*final(cache)) == topics_capacity(*old(cache)),
{
    cache.insert(name, topic)
}

// -------------------------------------------------------------- identities

/// What was last put in under each identity's name and not found gone since.
pub uninterp spec fn identities_held(cache: Cache<String, Arc<Identity>>) -> Map<Seq<char>, Identity>;

/// The number of identities that the cache was made for, and the seconds that
/// one may lie idle.
pub uninterp spec fn identities_limits(cache: Cache<String, Arc<Identity>>) -> (u64, u64);

/// How many identities the cache counts: the number that it last came to when it
/// saw to its entries, which it does as entries are looked up and put in. It
/// may lag behind what the cache holds.
pub uninterp spec fn identities_counted(cache: Cache<String, Arc<Identity>>) -> u64;

/// `Cache::entry_count` gives the number that the cache counts, and leaves it.
#[verifier::external_body]
pub(crate) fn count_identities(cache: &Cache<String, Arc<Identity>>) -> (r: u64)
    ensures
        r == identities_counted(*cache),
{
    cache.entry_count()
}

/// `Cache::builder`, with a capacity and a time to idle, makes an empty
/// cache. It panics on a time of more than a thousand years.
#[verifier::external_body]
pub(crate) fn new_identities(capacity: u64, idle_secs: u64) -> (r: Cache<String, Arc<Identity>>)
    requires
        idle_secs <= LONGEST_SECS,
    ensures
        identities_held(r).dom() == Set::<Seq<char>>::empty(),
        identities_limits(r) == (capacity, idle_secs),
        identities_counted(r) == 0,
{
    Cache::builder().max_capacity(capacity).time_to_idle(Duration::from_secs(idle_secs)).build()
}

/// `Cache::get` finds what was last put in under the key, or nothing: then
/// the cache has dropped the entry, or the entry has outlived its time, and
/// only putting it in again brings it back. Which of the two is not stated.
#[verifier::external_body]
pub(crate) fn get_identity(cache: &mut Cache<String, Arc<Identity>>, name: &str) -> (r: Option<
    Arc<Identity>,
>)
    ensures
        identities_limits(*final(cache)) == identities_limits(*old(cache)),
        match r {
            Some(identity) => identities_held(*old(cache)).contains_key(name@) && identities_held(
                *old(cache),
            )[name@] == *identity && identities_held(*final(cache)) == identities_held(*old(cache)),
            None => identities_held(*final(cache)) == identities_held(*old(cache)).remove(name@),
        },
{
    cache.get(name)
}

/// `Cache::get_with` finds what was last put in under the key; if the cache
/// has dropped it, it puts in the value offered and gives that back.
#[verifier::external_body]
pub(crate) fn get_identity_or(
    cache: &mut Cache<String, Arc<Identity>>,
    name: String,
    offered: Arc<Identity>,
) -> (r: Arc<Identity>)
    ensures
        identities_limits(*final(cache)) == identities_limits(*old(cache)),
        ({
            ||| r == offered && identities_held(*final(cache)) == identities_held(
                *old(cache),
            ).insert(name@, *offered)
            ||| identities_held(*old(cache)).contains_key(name@) && identities_held(
                *old(cache),
            )[name@] == *r && identities_held(*final(cache)) == identities_held(*old(cache))
        }),
{
    cache.get_with(name, || offered)
}

/// `Cache::insert` puts a value in under the key, in place of any other.
#[verifier::external_body]
pub(crate) fn put_identity(cache: &mut Cache<String, Arc<Identity>>, name: String, identity: Arc<Identity>)
    ensures
        identities_held(*final(cache)) == identities_held(*old(cache)).insert(name@, *identity),
        identities_limits(*final(cache)) == identities_limits(*old(cache)),
{
    cache.insert(name, identity)
}

// --------------------------------------------------------------- addresses

/// The bucket last put in under each address.
pub uninterp spec fn addresses_held(cache: Cache<Address, Bucket>) -> Map<Address, Bucket>;

/// The number of addresses that the cache was made for, and the seconds that
/// one may lie idle.
pub uninterp spec fn addresses_limits(cache: Cache<Address, Bucket>) -> (u64, u64);

/// `Cache::builder`, with a capacity and a time to idle, makes an empty
/// cache. It panics on a time of more than a thousand years.
#[verifier::external_body]
pub(crate) fn new_addresses(capacity: u64, idle_secs: u64) -> (r: Cache<Address, Bucket>)
    requires
        idle_secs <= LONGEST_SECS,
    ensures
        addresses_held(r).dom() == Set::<Address>::empty(),
        addresses_limits(r) == (capacity, idle_secs),
{
    Cache::builder().max_capacity(capacity).time_to_idle(Duration::from_secs(idle_secs)).build()
}

/// `Cache::get_with` finds what was last put in under the key; if the cache
/// has dropped it, it puts in the value offered and gives that back.
#[verifier::external_body]
pub(crate) fn get_address_or(cache: &mut Cache<Address, Bucket>, address: Address, offered: Bucket) -> (r:
    Bucket)
    ensures
        addresses_limits(*final(cache)) == addresses_limits(*old(cache)),
        ({
            ||| r == offered && addresses_held(*final(cache)) == addresses_held(*old(cache)).insert(
                address,
                offered,
            )
            ||| addresses_held(*old(cache)).contains_key(address) && addresses_held(
                *old(cache),
            )[address] == r && addresses_held(*final(cache)) == addresses_held(*old(cache))
        }),
{
    cache.get_with(address, || offered)
}

/// `Cache::insert` puts a value in under the key, in place of any other.
#[verifier::external_body]
pub(crate) fn put_address(cache: &mut Cache<Address, Bucket>, address: Address, bucket: Bucket)
    ensures
        addresses_held(*final(cache)) == addresses_held(*old(cache)).insert(address, bucket),
        addresses_limits(*final(cache)) == addresses_limits(*old(cache)),
{
    cache.insert(address, bucket)
}

// ------------------------------------------------------------------- marks

/// The keys that were put in and not found gone since.
pub uninterp spec fn marks_held(cache: Cache<Vec<u8>, ()>) -> Set<Seq<u8>>;

/// The number of keys that the cache was made for, and the seconds that one
/// lives.
pub uninterp spec fn marks_limits(cache: Cache<Vec<u8>, ()>) -> (u64, u64);

/// How many keys the cache counts: the number that it last came to when it
/// saw to its entries, which it does as entries are looked up and put in. It
/// may lag behind what the cache holds.
pub uninterp spec fn marks_counted(cache: Cache<Vec<u8>, ()>) -> u64;

/// `Cache::entry_count` gives the number that the cache counts, and leaves it.
#[verifier::external_body]
pub(crate) fn count_marks(cache: &Cache<Vec<u8>, ()>) -> (r: u64)
    ensures
        r == marks_counted(*cache),
{
    cache.entry_count()
}

/// `Cache::builder`, with a capacity and a time to live, makes an empty
/// cache. It panics on a time of more than a thousand years.
#[verifier::external_body]
pub(crate) fn new_marks(capacity: u64, live_secs: u64) -> (r: Cache<Vec<u8>, ()>)
    requires
        live_secs <= LONGEST_SECS,
    ensures
        marks_held(r) == Set::<Seq<u8>>::empty(),
        marks_limits(r) == (capacity, live_secs),
        marks_counted(r) == 0,
{
    Cache::builder().max_capacity(capacity).time_to_live(Duration::from_secs(live_secs)).build()
}

/// `Cache::contains_key` finds a key that was put in, or finds it gone: then
/// the cache has dropped it, or it has outlived its time, and only putting it
/// in again brings it back. Which of the two is not stated.
#[verifier::external_body]
pub(crate) fn has_mark(cache: &mut Cache<Vec<u8>, ()>, key: &[u8]) -> (r: bool)
    ensures
        marks_limits(*final(cache)) == marks_limits(*old(cache)),
        r == marks_held(*final(cache)).contains(key@),
        marks_held(*final(cache)) == (if r {
            marks_held(*old(cache))
        } else {
            marks_held(*old(cache)).remove(key@)
        }),
{
    cache.contains_key(key)
}

/// `Cache::insert` puts a key in.
#[verifier::external_body]
pub(crate) fn put_mark(cache: &mut Cache<Vec<u8>, ()>, key: Vec<u8>)
    ensures
        marks_held(*final(cache)) == marks_held(*old(cache)).insert(key@),
        marks_limits(*final(cache)) == marks_limits(*old(cache)),
{
    cache.insert(key, ())
}

} // verus!
