//! Requests: what they ask for, and what of them may be logged.

use crate::config::Config;
use crate::digest::{bytes_of, same_bytes};
use crate::form::{
    form_read, key_of, key_read, law_bytes_come_back, law_parts_have_a_name_and_a_value,
    law_plain_text_is_unchanged,
};
use crate::memory::Address;
use crate::reject::{Reject, RejectView};
use crate::text::{
    join, join_with, lemma_join_split, lemma_split_clean, lemma_split_first, lemma_split_join,
    lemma_split_some, lemma_split_tail, lemma_split_whole, same, split, split_on, texts, trim,
    trimmed,
};
use vstd::prelude::*;
use vstd::utf8::encode_utf8;

verus! {

/// The parameters of a request.
#[derive(Debug)]
pub struct Params {
    pub topic: Option<String>,
    pub content: Option<String>,
    pub n: Option<usize>,
    pub after: Option<u64>,
    pub min_age: Option<u64>,
    pub wait: Option<u64>,
    pub name: Option<String>,
    pub pass: Option<String>,
    pub ephemeral: bool,
}

/// The path of a request, and its query string if it has one.
#[derive(Debug)]
pub struct Uri {
    pub path: String,
    pub query: Option<String>,
}

/// What a request to the board's root asks for.
#[derive(Debug)]
pub enum Call {
    Post { topic: String, content: String },
    Wait { topic: String, secs: u64 },
    Read { topic: String },
}

// ----------------------------------------------------------------- routing

/// Whether a request says nothing, and so is shown the help page.
pub fn is_bare(uri: &Uri) -> (r: bool)
    ensures
        r == match uri.query {
            None => true,
            Some(query) => query@.len() == 0,
        },
{
    match &uri.query {
        None => true,
        Some(query) => query.as_str().is_empty(),
    }
}

/// Whether one part of a query string asks for soft errors.
pub open spec fn asks_soft(part: Seq<char>) -> bool {
    part == "soft=true"@ || part == "soft=1"@
}

/// Whether a query string asks for soft errors.
pub open spec fn soft_query(query: Seq<char>) -> bool {
    exists|i: int|
        0 <= i < split_on(query, '&').len() && asks_soft(#[trigger] split_on(query, '&')[i])
}

/// Whether errors are to be reported with the status of a success.
pub fn soft(uri: &Uri) -> (r: bool)
    ensures
        r == match uri.query {
            None => false,
            Some(query) => soft_query(query@),
        },
{
    match &uri.query {
        None => false,
        Some(query) => {
            let parts = split(query.as_str(), '&');
            let mut i: usize = 0;
            while i < parts.len()
                invariant
                    i <= parts.len(),
                    uri.query == Some(*query),
                    texts(parts@) == split_on(query@, '&'),
                    forall|j: int|
                        0 <= j < i ==> !asks_soft(#[trigger] split_on(query@, '&')[j]),
                decreases parts.len() - i,
            {
                let part = parts[i].as_str();
                assert(part@ == texts(parts@)[i as int]);
                if same(part, "soft=true") || same(part, "soft=1") {
                    assert(asks_soft(split_on(query@, '&')[i as int]));
                    return true;
                }
                i = i + 1;
            }
            false
        },
    }
}

/// The refusal that a query string deserves, if any.
pub open spec fn query_fault(config: Config, uri: Uri) -> Option<RejectView> {
    match uri.query {
        Some(query) => if encode_utf8(query@).len() > config.max_query_bytes {
            Some(RejectView::QueryTooLong(config.max_query_bytes))
        } else {
            None
        },
        None => None,
    }
}

/// Turns down a query string that is too long.
pub fn limit_query(config: &Config, uri: &Uri) -> (r: Result<(), Reject>)
    ensures
        match r {
            Ok(_) => query_fault(*config, *uri) is None,
            Err(reject) => query_fault(*config, *uri) == Some(reject@),
        },
        r is Err <==> (uri.query matches Some(query) && encode_utf8(query@).len()
            > config.max_query_bytes),
        r matches Err(reject) ==> reject@ == RejectView::QueryTooLong(config.max_query_bytes),
{
    if let Some(query) = &uri.query {
        if query.as_str().as_bytes().len() > config.max_query_bytes {
            return Err(Reject::QueryTooLong(config.max_query_bytes));
        }
    }
    Ok(())
}

/// What the parameters of a request to the root ask for.
pub open spec fn asked(params: Params) -> Result<Call, RejectView> {
    match (params.topic, params.content, params.wait) {
        (Some(topic), content, wait) => if topic@.len() == 0 {
            Err(RejectView::Bad("topic is required"@))
        } else {
            match (content, wait) {
                (Some(content), _) => Ok(Call::Post { topic, content }),
                (None, Some(secs)) => Ok(Call::Wait { topic, secs }),
                (None, None) => Ok(Call::Read { topic }),
            }
        },
        (None, _, _) => Err(RejectView::Bad("topic is required"@)),
    }
}

/// What the parameters of a request to the root ask for: content is posted,
/// and without content a wait is a wait and anything else a read.
pub fn call(params: &Params) -> (r: Result<Call, Reject>)
    ensures
        match r {
            Ok(call) => asked(*params) == Ok::<Call, RejectView>(call),
            Err(reject) => asked(*params) == Err::<Call, RejectView>(reject@),
        },
        match params.topic {
            None => r matches Err(reject) && reject@ == RejectView::Bad("topic is required"@),
            Some(topic) => if topic@.len() == 0 {
                r matches Err(reject) && reject@ == RejectView::Bad("topic is required"@)
            } else {
                match (params.content, params.wait) {
                    (Some(content), _) => r == Ok::<Call, Reject>(Call::Post { topic, content }),
                    (None, Some(secs)) => r == Ok::<Call, Reject>(Call::Wait { topic, secs }),
                    (None, None) => r == Ok::<Call, Reject>(Call::Read { topic }),
                }
            },
        },
{
    let topic = match &params.topic {
        Some(topic) if !topic.as_str().is_empty() => topic.clone(),
        _ => {
            return Err(Reject::Bad("topic is required".to_owned()));
        },
    };
    match (&params.content, params.wait) {
        (Some(content), _) => Ok(Call::Post { topic, content: content.clone() }),
        (None, Some(secs)) => Ok(Call::Wait { topic, secs }),
        (None, None) => Ok(Call::Read { topic }),
    }
}

// --------------------------------------------------------------- addresses

/// The address that the nearest proxy reports, as it stands at the end of an
/// `X-Forwarded-For` header.
pub open spec fn nearest_hop(header: Seq<char>) -> Seq<char> {
    trimmed(split_on(header, ',').last())
}

/// The address that the nearest proxy reports.
pub fn last_hop(header: &str) -> (r: String)
    ensures
        r@ == nearest_hop(header@),
        r@ == trimmed(split_on(header@, ',').last()),
{
    let hops = split(header, ',');
    assert(split_on(header@, ',').len() > 0) by {
        lemma_split_some(header@, ',');
    }
    assert(texts(hops@).last() == hops@.last()@);
    trim(hops[hops.len() - 1].as_str())
}

/// The address that the nearest proxy reports in some fields.
pub open spec fn hop_in(fields: Seq<Seq<char>>) -> Option<Seq<char>> {
    if fields.len() == 0 {
        None
    } else {
        Some(nearest_hop(fields.last()))
    }
}

/// The address that the nearest proxy reports in the fields of that header:
/// the last of the last.
pub fn forwarded(fields: &Vec<String>) -> (r: Option<String>)
    ensures
        match r {
            Some(hop) => hop_in(texts(fields@)) == Some(hop@),
            None => hop_in(texts(fields@)) is None,
        },
        match r {
            Some(hop) => fields@.len() > 0 && hop@ == trimmed(
                split_on(fields@.last()@, ',').last(),
            ),
            None => fields@.len() == 0,
        },
{
    if fields.len() == 0 {
        return None;
    }
    assert(texts(fields@).last() == fields@.last()@);
    Some(last_hop(fields[fields.len() - 1].as_str()))
}

/// The address that a request counts for.
pub open spec fn client(config: Config, forwarded: Option<Address>, peer: Address) -> Address {
    if config.trust_forwarded_for && forwarded is Some {
        forwarded->0
    } else {
        peer
    }
}

/// The client's address: the peer's, or the forwarded one where the settings
/// trust it and there is one.
pub fn client_ip(config: &Config, forwarded: Option<Address>, peer: Address) -> (r: Address)
    ensures
        r == client(*config, forwarded, peer),
        r == match forwarded {
            Some(address) => if config.trust_forwarded_for {
                address
            } else {
                peer
            },
            None => peer,
        },
{
    if config.trust_forwarded_for {
        match forwarded {
            Some(address) => address,
            None => peer,
        }
    } else {
        peer
    }
}

// --------------------------------------------------------------- redaction

/// Whether one part of a query string carries a passphrase: it has a value,
/// and its name, read as the server reads it, is `pass`.
pub open spec fn carries_pass(part: Seq<char>) -> bool {
    &&& key_of(part).len() < part.len()
    &&& form_read(key_of(part)) == encode_utf8("pass"@)
}

/// Whether one part of a query string carries a passphrase.
fn has_pass(part: &str) -> (r: bool)
    ensures
        r == carries_pass(part@),
{
    match key_read(part) {
        Some(key) => same_bytes(&key, &bytes_of("pass")),
        None => false,
    }
}

/// One part of a query string, without the passphrase if that is what it
/// carries.
pub open spec fn redacted_part(part: Seq<char>) -> Seq<char> {
    if carries_pass(part) {
        "pass=[redacted]"@
    } else {
        part
    }
}

/// The parts of a query string, each redacted.
pub open spec fn redacted_parts(parts: Seq<Seq<char>>) -> Seq<Seq<char>> {
    Seq::new(parts.len(), |i: int| redacted_part(parts[i]))
}

/// A query string, with every part redacted and nothing else changed.
pub open spec fn redacted_query(query: Seq<char>) -> Seq<char> {
    join_with(redacted_parts(split_on(query, '&')), '&')
}

/// The request as it may be logged.
pub open spec fn redacted(uri: Uri) -> Seq<char> {
    match uri.query {
        None => uri.path@,
        Some(query) => uri.path@ + "?"@ + redacted_query(query@),
    }
}

/// The request as it may be logged: without the passphrase.
pub fn redact(uri: &Uri) -> (r: String)
    ensures
        r@ == redacted(*uri),
        r@ == match uri.query {
            None => uri.path@,
            Some(query) => uri.path@ + "?"@ + redacted_query(query@),
        },
{
    let mut r = uri.path.clone();
    if let Some(query) = &uri.query {
        let parts = split(query.as_str(), '&');
        let mut cleaned: Vec<String> = Vec::new();
        let mut i: usize = 0;
        while i < parts.len()
            invariant
                i <= parts.len(),
                texts(parts@) == split_on(query@, '&'),
                texts(cleaned@) == redacted_parts(split_on(query@, '&')).take(i as int),
            decreases parts.len() - i,
        {
            let part = parts[i].as_str();
            assert(part@ == texts(parts@)[i as int]);
            let ghost before = texts(cleaned@);
            if has_pass(part) {
                cleaned.push("pass=[redacted]".to_owned());
            } else {
                cleaned.push(part.to_owned());
            }
            assert(texts(cleaned@) == before.push(redacted_part(part@)));
            i = i + 1;
        }
        assert(texts(cleaned@) == redacted_parts(split_on(query@, '&')));
        r.append("?");
        r.append(join(&cleaned, '&').as_str());
    }
    r
}

/// Redaction keeps the parts of a query string in their places, each by
/// itself either untouched or redacted.
pub proof fn law_redaction_keeps_parts(query: Seq<char>)
    ensures
        split_on(redacted_query(query), '&') == redacted_parts(split_on(query, '&')),
{
    let parts = redacted_parts(split_on(query, '&'));
    lemma_split_some(query, '&');
    assert forall|i: int| 0 <= i < parts.len() implies !(#[trigger] parts[i]).contains('&') by {
        lemma_split_clean(query, '&', i);
        reveal_strlit("pass=[redacted]");
    }
    lemma_split_join(parts, '&');
}

/// After redaction every part that carries a passphrase says only that there
/// was one.
pub proof fn law_redaction_hides_pass(query: Seq<char>, i: int)
    requires
        0 <= i < split_on(redacted_query(query), '&').len(),
        carries_pass(split_on(redacted_query(query), '&')[i]),
    ensures
        split_on(redacted_query(query), '&')[i] == "pass=[redacted]"@,
{
    law_redaction_keeps_parts(query);
}

/// What is logged does not depend on the passphrases: queries that differ in
/// them alone are logged alike.
pub proof fn law_redaction_forgets_pass(one: Seq<char>, other: Seq<char>)
    requires
        split_on(one, '&').len() == split_on(other, '&').len(),
        forall|i: int|
            0 <= i < split_on(one, '&').len() ==> {
                ||| #[trigger] split_on(one, '&')[i] == split_on(other, '&')[i]
                ||| carries_pass(split_on(one, '&')[i]) && carries_pass(split_on(other, '&')[i])
            },
    ensures
        redacted_query(one) == redacted_query(other),
{
    assert(redacted_parts(split_on(one, '&')) =~= redacted_parts(split_on(other, '&')));
}

/// A query without passphrases is logged as it is.
pub proof fn law_redaction_touches_nothing_else(query: Seq<char>)
    requires
        forall|i: int|
            0 <= i < split_on(query, '&').len() ==> !carries_pass(#[trigger] split_on(query, '&')[i]),
    ensures
        redacted_query(query) == query,
{
    assert(redacted_parts(split_on(query, '&')) =~= split_on(query, '&'));
    lemma_join_split(query, '&');
}

/// Redacting twice is redacting once.
pub proof fn law_redaction_settles(query: Seq<char>)
    ensures
        redacted_query(redacted_query(query)) == redacted_query(query),
{
    law_redaction_keeps_parts(query);
    let parts = split_on(query, '&');
    assert(redacted_parts(redacted_parts(parts)) =~= redacted_parts(parts));
}

/// A passphrase that is named without escapes is one that is hidden.
pub proof fn law_plain_pass_is_hidden(value: Seq<char>)
    ensures
        redacted_part("pass="@ + value) == "pass=[redacted]"@,
{
    let part = "pass="@ + value;
    reveal_strlit("pass=");
    reveal_strlit("pass");
    assert(part =~= "pass"@.push('=') + value);
    lemma_split_first("pass"@, value, '=');
    law_plain_text_is_unchanged("pass"@);
    law_bytes_come_back(encode_utf8("pass"@));
}

/// What is logged of a request is its path and, part by part, its query, in
/// which every part whose name is read as `pass` says only that there was a
/// passphrase, and every other part stands as it was sent.
pub proof fn law_logged_requests(uri: Uri, i: int)
    ensures
        uri.query is None ==> redacted(uri) == uri.path@,
        uri.query matches Some(query) ==> {
            let rest = redacted(uri).skip(uri.path@.len() as int + 1);
            let part = split_on(query@, '&')[i];
            &&& redacted(uri) == uri.path@.push('?') + rest
            &&& split_on(rest, '&').len() == split_on(query@, '&').len()
            &&& 0 <= i < split_on(query@, '&').len() ==> {
                &&& part.contains('=') && form_read(key_of(part)) == encode_utf8("pass"@)
                    ==> split_on(rest, '&')[i] == "pass=[redacted]"@
                &&& !part.contains('=') || form_read(key_of(part)) != encode_utf8("pass"@)
                    ==> split_on(rest, '&')[i] == part
            }
        },
{
    if let Some(query) = uri.query {
        reveal_strlit("?");
        let rest = redacted_query(query@);
        assert(redacted(uri).skip(uri.path@.len() as int + 1) =~= rest);
        assert(redacted(uri) =~= uri.path@.push('?') + rest);
        law_redaction_keeps_parts(query@);
        law_parts_have_a_name_and_a_value(split_on(query@, '&')[i]);
    }
}

/// Errors are soft exactly if one of the parts between the ampersands is
/// `soft=1` or `soft=true`.
pub proof fn law_soft_requests(query: Seq<char>)
    ensures
        soft_query(query) <==> split_on(query, '&').contains("soft=1"@) || split_on(
            query,
            '&',
        ).contains("soft=true"@),
{
    let parts = split_on(query, '&');
    if soft_query(query) {
        let i = choose|i: int| 0 <= i < parts.len() && asks_soft(#[trigger] parts[i]);
        assert(parts.contains(parts[i]));
    }
    if parts.contains("soft=1"@) {
        let i = choose|i: int| 0 <= i < parts.len() && parts[i] == "soft=1"@;
        assert(asks_soft(parts[i]));
    }
    if parts.contains("soft=true"@) {
        let i = choose|i: int| 0 <= i < parts.len() && parts[i] == "soft=true"@;
        assert(asks_soft(parts[i]));
    }
}

/// A query is too long exactly if it has more bytes than the settings allow,
/// and the refusal names what they allow.
pub proof fn law_long_queries(config: Config, uri: Uri)
    ensures
        query_fault(config, uri) is Some <==> uri.query is Some && encode_utf8(uri.query->0@).len()
            >= config.max_query_bytes + 1,
        query_fault(config, uri) matches Some(reject) ==> reject.status() == 414 && reject
            == RejectView::QueryTooLong(config.max_query_bytes),
{
}

/// Whatever has a topic and content is posted, with just these; what has no
/// content but seconds to wait waits for them; what has neither is read.
/// Without a topic nothing is done.
pub proof fn law_requests_are_told_apart(params: Params)
    ensures
        asked(params) matches Ok(Call::Post { topic, content }) ==> params.topic == Some(topic)
            && params.content == Some(content),
        asked(params) matches Ok(Call::Wait { topic, secs }) ==> params.topic == Some(topic)
            && params.content is None && params.wait == Some(secs),
        asked(params) matches Ok(Call::Read { topic }) ==> params.topic == Some(topic)
            && params.content is None && params.wait is None,
        asked(params) is Ok <==> params.topic is Some && params.topic->0@.len() > 0,
        asked(params) matches Err(reject) ==> reject == RejectView::Bad("topic is required"@),
{
}

/// The nearest proxy is the one that wrote last: what stands behind the last
/// comma, without the white space around it.
pub proof fn law_nearest_proxy(before: Seq<char>, hop: Seq<char>)
    requires
        !hop.contains(','),
    ensures
        nearest_hop(before.push(',') + hop) == trimmed(hop),
        nearest_hop(hop) == trimmed(hop),
{
    lemma_split_tail(before, hop, ',');
    lemma_split_whole(hop, ',');
}

/// Of several fields the last one counts, whatever the others hold.
pub proof fn law_last_field_counts(fields: Seq<Seq<char>>, field: Seq<char>)
    ensures
        hop_in(fields.push(field)) == Some(nearest_hop(field)),
        hop_in(Seq::<Seq<char>>::empty()) is None,
{
}

/// What proxies report counts only where the settings trust it; otherwise, and
/// where they report nothing, the peer counts.
pub proof fn law_clients(config: Config, forwarded: Option<Address>, peer: Address)
    ensures
        !config.trust_forwarded_for ==> client(config, forwarded, peer) == peer,
        forwarded is None ==> client(config, forwarded, peer) == peer,
        config.trust_forwarded_for && forwarded is Some ==> Some(client(config, forwarded, peer))
            == forwarded,
{
}

} // verus!
