//! Answers, and the links that they carry.

use crate::config::Config;
use crate::form::{
    credential_pairs, credentials, form, form_pair, form_pairs, law_pairs_come_back,
    law_plain_text_is_unchanged, lemma_form_joined, pair_texts, pairs_in, plain_char, position,
    position_pairs, query,
};
use crate::identity::{
    post_burst, post_interval, tier_at, tier_name, topic_allowance, Identity,
};
use crate::number::Number;
use crate::paging::{keeps, law_next_place_is_greatest};
use crate::request::Params;
use crate::text::{decimal, numeral};
use crate::topic::{cursor, next_place, Message};
use std::sync::Arc;
use vstd::prelude::*;

verus! {

/// Where to go on from a position in a topic.
#[derive(Debug)]
pub struct Links {
    pub read: String,
    pub wait: String,
}

/// The answer to a post.
#[derive(Debug)]
pub struct PostReply {
    pub ok: bool,
    pub server_time: u64,
    /// The number of the message, which one that is not kept does not have.
    /// A repeated post is answered without it.
    pub seq: Option<Option<u64>>,
    pub duplicate: bool,
    pub next: Links,
}

/// The answer to a read or a wait.
#[derive(Debug)]
pub struct PageReply {
    pub ok: bool,
    pub server_time: u64,
    pub topic: String,
    pub items: Vec<Arc<Message>>,
    pub gap: bool,
    pub next: String,
}

/// What an identity may do.
#[derive(Debug)]
pub struct Limits {
    pub post_interval_secs: Number,
    pub post_burst: Number,
    pub topics: usize,
    pub topics_created: usize,
}

/// Templates of the links that an identity uses.
#[derive(Debug)]
pub struct How {
    pub post: String,
    pub post_ephemeral: String,
    pub read: &'static str,
    pub wait: String,
    pub help: &'static str,
}

/// The answer to a registration.
#[derive(Debug)]
pub struct RegisterReply {
    pub ok: bool,
    pub server_time: u64,
    pub name: String,
    pub existing: bool,
    pub since: u64,
    pub tier: &'static str,
    pub limits: Limits,
    pub how: How,
}

/// The characters of an optional parameter, none if it is absent.
pub open spec fn text_or_empty(s: Option<String>) -> Seq<char> {
    match s {
        Some(s) => s@,
        None => Seq::empty(),
    }
}

/// An optional parameter, empty if it is absent.
pub(crate) fn string_or_empty(s: &Option<String>) -> (r: String)
    ensures
        r@ == text_or_empty(*s),
{
    match s {
        Some(s) => s.clone(),
        None => String::new(),
    }
}

// ------------------------------------------------------------------- posts

/// The link that reads a topic from a position on.
pub open spec fn read_link(topic: Seq<char>, after: u64) -> Seq<char> {
    "/?"@ + form(position_pairs(topic, after))
}

/// The link that waits for messages after a position.
pub open spec fn wait_link(
    topic: Seq<char>,
    after: u64,
    secs: u64,
    name: Seq<char>,
    pass: Seq<char>,
) -> Seq<char> {
    read_link(topic, after) + "&wait="@ + decimal(secs as nat) + "&"@ + form(
        credential_pairs(name, pass),
    )
}

impl PostReply {
    /// Whether this is the answer with the given number, whose links go on
    /// after the position `latest`.
    pub open spec fn says(
        self,
        seq: Option<Option<u64>>,
        topic: Seq<char>,
        latest: u64,
        secs: u64,
        name: Seq<char>,
        pass: Seq<char>,
        now: u64,
    ) -> bool {
        &&& self.ok
        &&& self.server_time == now
        &&& self.seq == seq
        &&& self.duplicate == (seq is None)
        &&& self.next.read@ == read_link(topic, latest)
        &&& self.next.wait@ == wait_link(topic, latest, secs, name, pass)
    }

    /// The answer to a post: with the message's number, or without one to a
    /// repeated post.
    pub fn new(
        seq: Option<Option<u64>>,
        topic: &str,
        latest: u64,
        secs: u64,
        name: &str,
        pass: &str,
        now: u64,
    ) -> (r: PostReply)
        ensures
            r.says(seq, topic@, latest, secs, name@, pass@, now),
    {
        let mut read = "/?".to_owned();
        read.append(position(topic, latest).as_str());
        let mut wait = read.clone();
        wait.append("&wait=");
        wait.append(numeral(secs).as_str());
        wait.append("&");
        wait.append(credentials(name, pass).as_str());
        PostReply {
            ok: true,
            server_time: now,
            seq,
            duplicate: seq.is_none(),
            next: Links { read, wait },
        }
    }
}

// ------------------------------------------------------------------- pages

/// The parameters of the link to the page that follows: the position, and
/// what a wait needs to be a wait again.
pub open spec fn page_pairs(topic: Seq<char>, place: u64, params: &Params) -> Seq<
    (Seq<char>, Seq<char>),
> {
    match params.wait {
        None => position_pairs(topic, place),
        Some(secs) => position_pairs(topic, place) + seq![
            ("wait"@, decimal(secs as nat)),
            ("name"@, text_or_empty(params.name)),
            ("pass"@, text_or_empty(params.pass)),
        ],
    }
}

impl PageReply {
    /// Whether this is the page with the given messages.
    pub open spec fn says(
        self,
        topic: Seq<char>,
        items: Seq<Arc<Message>>,
        gap: bool,
        params: &Params,
        now: u64,
    ) -> bool {
        &&& self.ok
        &&& self.server_time == now
        &&& self.topic@ == topic
        &&& self.items@ == items
        &&& self.gap == gap
        &&& self.next@ == "/?"@ + form(page_pairs(topic, next_place(items, params.after), params))
    }
}

/// The page with the given messages, and the link to the one that follows.
pub fn page(topic: &str, items: Vec<Arc<Message>>, gap: bool, params: &Params, now: u64) -> (r:
    PageReply)
    ensures
        r.says(topic@, items@, gap, params, now),
{
    let last: u64 = cursor(&items, params.after);
    let mut pairs: Vec<(&str, String)> = Vec::new();
    pairs.push(("topic", topic.to_owned()));
    pairs.push(("after", numeral(last)));
    if let Some(wait) = params.wait {
        pairs.push(("wait", numeral(wait)));
        pairs.push(("name", string_or_empty(&params.name)));
        pairs.push(("pass", string_or_empty(&params.pass)));
    }
    assert(pair_texts(pairs@) == page_pairs(topic@, last, params));
    let mut next = "/?".to_owned();
    next.append(query(&pairs).as_str());
    PageReply { ok: true, server_time: now, topic: topic.to_owned(), items, gap, next }
}

// ----------------------------------------------------------- registrations

impl RegisterReply {
    /// Whether this describes the identity to whoever holds its passphrase.
    pub open spec fn describes(
        self,
        config: &Config,
        identity: Identity,
        existing: bool,
        pass: Seq<char>,
        now: u64,
    ) -> bool {
        let creds = form(credential_pairs(identity.name@, pass));
        &&& self.ok
        &&& self.server_time == now
        &&& self.name@ == identity.name@
        &&& self.existing == existing
        &&& self.since == identity.since
        &&& self.tier@ == tier_name(config, identity.since, now)
        &&& self.limits.post_interval_secs == post_interval(config, identity.since, now)
        &&& self.limits.post_burst == post_burst(config, identity.since, now)
        &&& self.limits.topics == topic_allowance(config, identity.since, now)
        &&& self.limits.topics_created == identity.topics
        &&& self.how.post@ == "/?topic=TOPIC&content=CONTENT&"@ + creds
        &&& self.how.post_ephemeral@ == "/?topic=TOPIC&content=CONTENT&ephemeral=true&"@ + creds
        &&& self.how.read@ == "/?topic=TOPIC"@
        &&& self.how.wait@ == "/?topic=TOPIC&after=SEQ&wait="@ + decimal(
            config.max_wait_secs as nat,
        ) + "&"@ + creds
        &&& self.how.help@ == "/"@
    }

    /// Describes an identity to whoever holds its passphrase.
    pub fn new(config: &Config, identity: &Identity, existing: bool, pass: &str, now: u64) -> (r:
        RegisterReply)
        ensures
            r.describes(config, *identity, existing, pass@, now),
    {
        let tier = tier_at(config, identity.since, now);
        let creds = credentials(identity.name.as_str(), pass);
        let mut post = "/?topic=TOPIC&content=CONTENT&".to_owned();
        post.append(creds.as_str());
        let mut post_ephemeral = "/?topic=TOPIC&content=CONTENT&ephemeral=true&".to_owned();
        post_ephemeral.append(creds.as_str());
        let mut wait = "/?topic=TOPIC&after=SEQ&wait=".to_owned();
        wait.append(numeral(config.max_wait_secs).as_str());
        wait.append("&");
        wait.append(creds.as_str());
        RegisterReply {
            ok: true,
            server_time: now,
            name: identity.name.clone(),
            existing,
            since: identity.since,
            tier: tier.name,
            limits: Limits {
                post_interval_secs: tier.interval,
                post_burst: tier.burst,
                topics: tier.topics,
                topics_created: identity.topics,
            },
            how: How { post, post_ephemeral, read: "/?topic=TOPIC", wait, help: "/" },
        }
    }
}

// -------------------------------------------------------------------- laws

/// Numerals stand in a link as they are.
proof fn lemma_decimal_plain(n: nat)
    ensures
        forall|i: int| 0 <= i < decimal(n).len() ==> plain_char(#[trigger] decimal(n)[i]),
    decreases n,
{
    if n >= 10 {
        let before = decimal(n / 10);
        lemma_decimal_plain(n / 10);
        assert forall|i: int| 0 <= i < decimal(n).len() implies plain_char(
            #[trigger] decimal(n)[i],
        ) by {
            if i < before.len() {
                assert(plain_char(before[i]));
            }
        }
    }
}

/// A pair of plain texts stands in a link as it is.
proof fn lemma_plain_pair(key: Seq<char>, value: Seq<char>)
    requires
        forall|i: int| 0 <= i < key.len() ==> plain_char(#[trigger] key[i]),
        forall|i: int| 0 <= i < value.len() ==> plain_char(#[trigger] value[i]),
    ensures
        form(seq![(key, value)]) == key.push('=') + value,
{
    law_plain_text_is_unchanged(key);
    law_plain_text_is_unchanged(value);
    assert(form_pairs(seq![(key, value)]) =~= seq![form_pair((key, value))]);
}

/// The link to wait for messages stands for the topic, the position, the
/// seconds and the credentials that it was made of, whatever characters these
/// hold.
pub proof fn law_wait_link_reads_back(
    topic: Seq<char>,
    after: u64,
    secs: u64,
    name: Seq<char>,
    pass: Seq<char>,
)
    ensures
        pairs_in(wait_link(topic, after, secs, name, pass).skip(2)) == position_pairs(topic, after)
            + seq![("wait"@, decimal(secs as nat))] + credential_pairs(name, pass),
{
    let place = position_pairs(topic, after);
    let wait = seq![("wait"@, decimal(secs as nat))];
    let creds = credential_pairs(name, pass);
    reveal_strlit("/?");
    reveal_strlit("&wait=");
    reveal_strlit("wait");
    reveal_strlit("&");
    lemma_decimal_plain(secs as nat);
    lemma_plain_pair("wait"@, decimal(secs as nat));
    lemma_form_joined(place, wait);
    lemma_form_joined(place + wait, creds);
    let link = wait_link(topic, after, secs, name, pass);
    assert(link.skip(2) =~= form(place + wait + creds));
    law_pairs_come_back(place + wait + creds);
}

/// The link to read on stands for the topic and the position that it was made
/// of.
pub proof fn law_read_link_reads_back(topic: Seq<char>, after: u64)
    ensures
        pairs_in(read_link(topic, after).skip(2)) == position_pairs(topic, after),
{
    reveal_strlit("/?");
    assert(read_link(topic, after).skip(2) =~= form(position_pairs(topic, after)));
    law_pairs_come_back(position_pairs(topic, after));
}

/// The link to the page that follows stands for what it was made of.
pub proof fn law_page_link_reads_back(
    reply: PageReply,
    topic: Seq<char>,
    items: Seq<Arc<Message>>,
    gap: bool,
    params: Params,
    now: u64,
)
    requires
        reply.says(topic, items, gap, &params, now),
    ensures
        pairs_in(reply.next@.skip(2)) == page_pairs(topic, next_place(items, params.after), &params),
{
    let pairs = page_pairs(topic, next_place(items, params.after), &params);
    reveal_strlit("/?");
    assert(reply.next@.skip(2) =~= form(pairs));
    law_pairs_come_back(pairs);
}

/// The template of a post carries the name and the passphrase.
pub proof fn law_post_template_reads_back(
    reply: RegisterReply,
    config: Config,
    identity: Identity,
    existing: bool,
    pass: Seq<char>,
    now: u64,
)
    requires
        reply.describes(&config, identity, existing, pass, now),
    ensures
        pairs_in(reply.how.post@.skip(2)) == seq![("topic"@, "TOPIC"@), ("content"@, "CONTENT"@)]
            + credential_pairs(identity.name@, pass),
{
    let topic = seq![("topic"@, "TOPIC"@)];
    let content = seq![("content"@, "CONTENT"@)];
    let creds = credential_pairs(identity.name@, pass);
    reveal_strlit("topic");
    reveal_strlit("TOPIC");
    reveal_strlit("content");
    reveal_strlit("CONTENT");
    reveal_strlit("/?topic=TOPIC&content=CONTENT&");
    lemma_plain_pair("topic"@, "TOPIC"@);
    lemma_plain_pair("content"@, "CONTENT"@);
    lemma_form_joined(topic, content);
    lemma_form_joined(topic + content, creds);
    assert(topic + content =~= seq![("topic"@, "TOPIC"@), ("content"@, "CONTENT"@)]);
    assert(reply.how.post@.skip(2) =~= form(topic + content + creds));
    law_pairs_come_back(topic + content + creds);
}

/// The template of a post that is not kept carries the name and the
/// passphrase, and says that it is not kept.
pub proof fn law_ephemeral_template_reads_back(
    reply: RegisterReply,
    config: Config,
    identity: Identity,
    existing: bool,
    pass: Seq<char>,
    now: u64,
)
    requires
        reply.describes(&config, identity, existing, pass, now),
    ensures
        pairs_in(reply.how.post_ephemeral@.skip(2)) == seq![
            ("topic"@, "TOPIC"@),
            ("content"@, "CONTENT"@),
            ("ephemeral"@, "true"@),
        ] + credential_pairs(identity.name@, pass),
{
    let topic = seq![("topic"@, "TOPIC"@)];
    let content = seq![("content"@, "CONTENT"@)];
    let ephemeral = seq![("ephemeral"@, "true"@)];
    let creds = credential_pairs(identity.name@, pass);
    reveal_strlit("topic");
    reveal_strlit("TOPIC");
    reveal_strlit("content");
    reveal_strlit("CONTENT");
    reveal_strlit("ephemeral");
    reveal_strlit("true");
    reveal_strlit("/?topic=TOPIC&content=CONTENT&ephemeral=true&");
    lemma_plain_pair("topic"@, "TOPIC"@);
    lemma_plain_pair("content"@, "CONTENT"@);
    lemma_plain_pair("ephemeral"@, "true"@);
    lemma_form_joined(topic, content);
    lemma_form_joined(topic + content, ephemeral);
    lemma_form_joined(topic + content + ephemeral, creds);
    assert(topic + content + ephemeral =~= seq![
        ("topic"@, "TOPIC"@),
        ("content"@, "CONTENT"@),
        ("ephemeral"@, "true"@),
    ]);
    assert(reply.how.post_ephemeral@.skip(2) =~= form(topic + content + ephemeral + creds));
    law_pairs_come_back(topic + content + ephemeral + creds);
}

/// The template of a wait carries the seconds, the name and the passphrase.
pub proof fn law_wait_template_reads_back(
    reply: RegisterReply,
    config: Config,
    identity: Identity,
    existing: bool,
    pass: Seq<char>,
    now: u64,
)
    requires
        reply.describes(&config, identity, existing, pass, now),
    ensures
        pairs_in(reply.how.wait@.skip(2)) == seq![
            ("topic"@, "TOPIC"@),
            ("after"@, "SEQ"@),
            ("wait"@, decimal(config.max_wait_secs as nat)),
        ] + credential_pairs(identity.name@, pass),
{
    let topic = seq![("topic"@, "TOPIC"@)];
    let after = seq![("after"@, "SEQ"@)];
    let wait = seq![("wait"@, decimal(config.max_wait_secs as nat))];
    let creds = credential_pairs(identity.name@, pass);
    reveal_strlit("topic");
    reveal_strlit("TOPIC");
    reveal_strlit("after");
    reveal_strlit("SEQ");
    reveal_strlit("wait");
    reveal_strlit("&");
    reveal_strlit("/?topic=TOPIC&after=SEQ&wait=");
    lemma_decimal_plain(config.max_wait_secs as nat);
    lemma_plain_pair("topic"@, "TOPIC"@);
    lemma_plain_pair("after"@, "SEQ"@);
    lemma_plain_pair("wait"@, decimal(config.max_wait_secs as nat));
    lemma_form_joined(topic, after);
    lemma_form_joined(topic + after, wait);
    lemma_form_joined(topic + after + wait, creds);
    assert(topic + after + wait =~= seq![
        ("topic"@, "TOPIC"@),
        ("after"@, "SEQ"@),
        ("wait"@, decimal(config.max_wait_secs as nat)),
    ]);
    assert(reply.how.wait@.skip(2) =~= form(topic + after + wait + creds));
    law_pairs_come_back(topic + after + wait + creds);
}

/// The answer to a post tells its number, whether it was made before, and
/// links that read and wait from a position on: each stands for the topic, the
/// position and, to wait, the seconds and the credentials.
pub proof fn law_post_replies(
    reply: PostReply,
    seq: Option<Option<u64>>,
    topic: Seq<char>,
    latest: u64,
    secs: u64,
    name: Seq<char>,
    pass: Seq<char>,
    now: u64,
)
    requires
        reply.says(seq, topic, latest, secs, name, pass, now),
    ensures
        reply.ok,
        reply.server_time == now,
        reply.seq == seq,
        reply.duplicate <==> seq is None,
        reply.next.read@.take(2) == seq!['/', '?'],
        pairs_in(reply.next.read@.skip(2)) == seq![
            ("topic"@, topic),
            ("after"@, decimal(latest as nat)),
        ],
        reply.next.wait@.take(2) == seq!['/', '?'],
        pairs_in(reply.next.wait@.skip(2)) == seq![
            ("topic"@, topic),
            ("after"@, decimal(latest as nat)),
            ("wait"@, decimal(secs as nat)),
            ("name"@, name),
            ("pass"@, pass),
        ],
{
    reveal_strlit("/?");
    law_read_link_reads_back(topic, latest);
    law_wait_link_reads_back(topic, latest, secs, name, pass);
    assert(reply.next.read@.take(2) =~= seq!['/', '?']);
    assert(reply.next.wait@.take(2) =~= seq!['/', '?']);
    assert(pairs_in(reply.next.wait@.skip(2)) =~= seq![
        ("topic"@, topic),
        ("after"@, decimal(latest as nat)),
        ("wait"@, decimal(secs as nat)),
        ("name"@, name),
        ("pass"@, pass),
    ]);
}

/// A page tells the messages that it was made of, and its link goes on after
/// the greatest of their numbers, or where the reader began. The link of a
/// wait is one to wait again, as long and with the same credentials.
pub proof fn law_page_replies(
    reply: PageReply,
    topic: Seq<char>,
    items: Seq<Arc<Message>>,
    gap: bool,
    params: Params,
    now: u64,
)
    requires
        reply.says(topic, items, gap, &params, now),
    ensures
        reply.ok,
        reply.server_time == now,
        reply.topic@ == topic,
        reply.items@ == items,
        reply.gap == gap,
        reply.next@.take(2) == seq!['/', '?'],
        params.wait is None ==> pairs_in(reply.next@.skip(2)).len() == 2,
        params.wait matches Some(secs) ==> pairs_in(reply.next@.skip(2)).skip(2) == seq![
            ("wait"@, decimal(secs as nat)),
            (
                "name"@,
                if params.name is Some {
                    params.name->0@
                } else {
                    Seq::empty()
                },
            ),
            (
                "pass"@,
                if params.pass is Some {
                    params.pass->0@
                } else {
                    Seq::empty()
                },
            ),
        ],
        pairs_in(reply.next@.skip(2))[0] == ("topic"@, topic),
        exists|place: u64|
            {
                &&& pairs_in(reply.next@.skip(2))[1] == ("after"@, #[trigger] decimal(place as nat))
                &&& forall|i: int|
                    0 <= i < items.len() && (#[trigger] items[i]).seq is Some ==> items[i].seq->0
                        <= place
                &&& (exists|i: int| 0 <= i < items.len() && (#[trigger] items[i]).seq is Some)
                    ==> keeps(items, place)
                &&& (forall|i: int| 0 <= i < items.len() ==> (#[trigger] items[i]).seq is None)
                    ==> (params.after is Some ==> place == params.after->0) && (params.after is None
                    ==> place == 0)
            },
{
    let place = next_place(items, params.after);
    reveal_strlit("/?");
    law_page_link_reads_back(reply, topic, items, gap, params, now);
    law_next_place_is_greatest(items, params.after);
    assert(reply.next@.take(2) =~= seq!['/', '?']);
    let pairs = pairs_in(reply.next@.skip(2));
    assert(pairs[1] == ("after"@, decimal(place as nat)));
    if let Some(secs) = params.wait {
        assert(pairs.skip(2) =~= seq![
            ("wait"@, decimal(secs as nat)),
            (
                "name"@,
                if params.name is Some {
                    params.name->0@
                } else {
                    Seq::empty()
                },
            ),
            (
                "pass"@,
                if params.pass is Some {
                    params.pass->0@
                } else {
                    Seq::empty()
                },
            ),
        ]);
    }
}

/// The answer to a registration describes the identity, and its terms by its
/// age.
pub proof fn law_register_replies(
    reply: RegisterReply,
    config: Config,
    identity: Identity,
    existing: bool,
    pass: Seq<char>,
    now: u64,
)
    requires
        reply.describes(&config, identity, existing, pass, now),
    ensures
        reply.ok,
        reply.server_time == now,
        reply.name@ == identity.name@,
        reply.existing == existing,
        reply.since == identity.since,
        reply.limits.topics_created == identity.topics,
        reply.how.read@ == "/?topic=TOPIC"@,
        reply.how.help@ == "/"@,
        config.probation_secs > 0 && now < identity.since + config.probation_secs ==> {
            &&& reply.tier@ == "probation"@
            &&& reply.limits.topics == config.probation_topics
            &&& reply.limits.post_interval_secs == config.probation_interval_secs
            &&& reply.limits.post_burst.bits == 0x3ff0_0000_0000_0000
        },
        config.probation_secs == 0 || now >= identity.since + config.probation_secs ==> {
            &&& reply.tier@ == "established"@
            &&& reply.limits.topics == config.max_topics_per_identity
            &&& reply.limits.post_interval_secs == config.post_interval_secs
            &&& reply.limits.post_burst == config.post_burst
        },
{
}

/// The templates in the answer to a registration carry the name and the
/// passphrase, whatever characters these hold, and the wait as long as it may
/// be.
pub proof fn law_templates_carry_credentials(
    reply: RegisterReply,
    config: Config,
    identity: Identity,
    existing: bool,
    pass: Seq<char>,
    now: u64,
)
    requires
        reply.describes(&config, identity, existing, pass, now),
    ensures
        pairs_in(reply.how.post@.skip(2)) == seq![
            ("topic"@, "TOPIC"@),
            ("content"@, "CONTENT"@),
            ("name"@, identity.name@),
            ("pass"@, pass),
        ],
        pairs_in(reply.how.post_ephemeral@.skip(2)) == seq![
            ("topic"@, "TOPIC"@),
            ("content"@, "CONTENT"@),
            ("ephemeral"@, "true"@),
            ("name"@, identity.name@),
            ("pass"@, pass),
        ],
        pairs_in(reply.how.wait@.skip(2)) == seq![
            ("topic"@, "TOPIC"@),
            ("after"@, "SEQ"@),
            ("wait"@, decimal(config.max_wait_secs as nat)),
            ("name"@, identity.name@),
            ("pass"@, pass),
        ],
{
    law_post_template_reads_back(reply, config, identity, existing, pass, now);
    law_ephemeral_template_reads_back(reply, config, identity, existing, pass, now);
    law_wait_template_reads_back(reply, config, identity, existing, pass, now);
    assert(pairs_in(reply.how.post@.skip(2)) =~= seq![
        ("topic"@, "TOPIC"@),
        ("content"@, "CONTENT"@),
        ("name"@, identity.name@),
        ("pass"@, pass),
    ]);
    assert(pairs_in(reply.how.post_ephemeral@.skip(2)) =~= seq![
        ("topic"@, "TOPIC"@),
        ("content"@, "CONTENT"@),
        ("ephemeral"@, "true"@),
        ("name"@, identity.name@),
        ("pass"@, pass),
    ]);
    assert(pairs_in(reply.how.wait@.skip(2)) =~= seq![
        ("topic"@, "TOPIC"@),
        ("after"@, "SEQ"@),
        ("wait"@, decimal(config.max_wait_secs as nat)),
        ("name"@, identity.name@),
        ("pass"@, pass),
    ]);
}

} // verus!
