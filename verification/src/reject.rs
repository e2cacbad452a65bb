//! Refusals: why a request was turned down, and what it is answered.

use crate::text::{decimal, digits_value, law_numerals_read_back, numeral};
use vstd::prelude::*;

verus! {

/// Why a request was turned down.
#[derive(Debug)]
pub enum Reject {
    /// A parameter is missing or malformed.
    Bad(String),
    /// The content is longer than the given number of bytes.
    ContentTooLong(usize),
    /// The query string is longer than the given number of bytes.
    QueryTooLong(usize),
    /// The name is unknown or the passphrase is not its own.
    Credentials,
    /// The name belongs to someone else.
    NameTaken,
    /// A rate limit, by its scope, and the seconds until it yields.
    Limited(&'static str, u64),
    /// The identity has created the given number of topics already, and the
    /// seconds until it may create another.
    Topics(usize, u64),
    /// The identity holds the given number of waits open already, and the
    /// seconds within which one of them ends.
    Waiters(usize, u64),
}

/// A refusal, with the characters of its texts.
pub enum RejectView {
    Bad(Seq<char>),
    ContentTooLong(usize),
    QueryTooLong(usize),
    Credentials,
    NameTaken,
    Limited(Seq<char>, u64),
    Topics(usize, u64),
    Waiters(usize, u64),
}

impl View for Reject {
    type V = RejectView;

    open spec fn view(&self) -> RejectView {
        match self {
            Reject::Bad(message) => RejectView::Bad(message@),
            Reject::ContentTooLong(max) => RejectView::ContentTooLong(*max),
            Reject::QueryTooLong(max) => RejectView::QueryTooLong(*max),
            Reject::Credentials => RejectView::Credentials,
            Reject::NameTaken => RejectView::NameTaken,
            Reject::Limited(scope, secs) => RejectView::Limited(scope@, *secs),
            Reject::Topics(max, secs) => RejectView::Topics(*max, *secs),
            Reject::Waiters(max, secs) => RejectView::Waiters(*max, *secs),
        }
    }
}

impl RejectView {
    /// The label under which the refusal is counted.
    pub open spec fn reason(self) -> Seq<char> {
        match self {
            RejectView::Bad(_) => "bad_request"@,
            RejectView::ContentTooLong(_) => "content_too_long"@,
            RejectView::QueryTooLong(_) => "query_too_long"@,
            RejectView::Credentials => "credentials"@,
            RejectView::NameTaken => "name_taken"@,
            RejectView::Limited(scope, _) => scope,
            RejectView::Topics(_, _) => "topic_limit"@,
            RejectView::Waiters(_, _) => "waiter_limit"@,
        }
    }

    /// The HTTP status of the answer.
    pub open spec fn status(self) -> u16 {
        match self {
            RejectView::Bad(_) => 400,
            RejectView::ContentTooLong(_) => 413,
            RejectView::QueryTooLong(_) => 414,
            RejectView::Credentials => 403,
            RejectView::NameTaken => 409,
            RejectView::Limited(_, _) => 429,
            RejectView::Topics(_, _) => 429,
            RejectView::Waiters(_, _) => 429,
        }
    }

    /// The explanation in the answer.
    pub open spec fn error(self) -> Seq<char> {
        match self {
            RejectView::Bad(message) => message,
            RejectView::ContentTooLong(max) => "content exceeds "@ + decimal(max as nat) + " bytes"@,
            RejectView::QueryTooLong(max) => "query exceeds "@ + decimal(max as nat) + " bytes"@,
            RejectView::Credentials => "unknown name or wrong pass; register first"@,
            RejectView::NameTaken => "name is taken; choose another or supply its pass"@,
            RejectView::Limited(scope, secs) => scope + " rate limit; retry in "@ + decimal(
                secs as nat,
            ) + "s"@,
            RejectView::Topics(max, _) => "identity may create at most "@ + decimal(max as nat)
                + " topics at its tier"@,
            RejectView::Waiters(max, _) => "identity already has "@ + decimal(max as nat)
                + " waits open"@,
        }
    }

    /// The seconds to wait before another attempt: a limit gives them, and
    /// nothing else does.
    pub open spec fn retry_after(self) -> Option<u64> {
        match self {
            RejectView::Limited(_, secs) => Some(secs),
            RejectView::Topics(_, secs) => Some(secs),
            RejectView::Waiters(_, secs) => Some(secs),
            _ => None,
        }
    }
}

/// The answer to a request that was turned down.
#[derive(Debug)]
pub struct ErrorReply {
    /// The HTTP status.
    pub status: u16,
    pub ok: bool,
    pub error: String,
    pub server_time: u64,
    pub help: &'static str,
    pub retry_after: Option<u64>,
}

impl ErrorReply {
    /// Whether this is the answer to a request that was turned down for the
    /// given reason.
    pub open spec fn answers(self, reject: RejectView, soft: bool, now: u64) -> bool {
        &&& self.status == (if soft {
            200
        } else {
            reject.status()
        })
        &&& !self.ok
        &&& self.error@ == reject.error()
        &&& self.server_time == now
        &&& self.help@ == "/"@
        &&& self.retry_after == reject.retry_after()
    }
}

/// `before`, the numeral of `n`, and `after`.
fn sentence(before: &str, n: u64, after: &str) -> (r: String)
    ensures
        r@ == before@ + decimal(n as nat) + after@,
{
    let mut r = before.to_owned();
    r.append(numeral(n).as_str());
    r.append(after);
    r
}

impl Reject {
    /// The label under which the refusal is counted.
    pub fn reason(&self) -> (r: &'static str)
        ensures
            r@ == self@.reason(),
    {
        match self {
            Reject::Bad(_) => "bad_request",
            Reject::ContentTooLong(_) => "content_too_long",
            Reject::QueryTooLong(_) => "query_too_long",
            Reject::Credentials => "credentials",
            Reject::NameTaken => "name_taken",
            Reject::Limited(scope, _) => scope,
            Reject::Topics(_, _) => "topic_limit",
            Reject::Waiters(_, _) => "waiter_limit",
        }
    }

    /// The answer. A soft answer has the status of a success, for callers
    /// that cannot read the body of a failure.
    pub fn response(&self, soft: bool, now: u64) -> (r: ErrorReply)
        ensures
            r.answers(self@, soft, now),
            r.status == (if soft {
                200
            } else {
                self@.status()
            }),
            !r.ok,
            r.error@ == self@.error(),
            r.server_time == now,
            r.help@ == "/"@,
            r.retry_after == self@.retry_after(),
    {
        let (status, error): (u16, String) = match self {
            Reject::Bad(message) => (400, message.clone()),
            Reject::ContentTooLong(max) => (413, sentence("content exceeds ", *max as u64, " bytes")),
            Reject::QueryTooLong(max) => (414, sentence("query exceeds ", *max as u64, " bytes")),
            Reject::Credentials => (403, "unknown name or wrong pass; register first".to_owned()),
            Reject::NameTaken => (
                409,
                "name is taken; choose another or supply its pass".to_owned(),
            ),
            Reject::Limited(scope, secs) => {
                let mut limit = (*scope).to_owned();
                limit.append(" rate limit; retry in ");
                (429, sentence(limit.as_str(), *secs, "s"))
            },
            Reject::Topics(max, _) => (
                429,
                sentence("identity may create at most ", *max as u64, " topics at its tier"),
            ),
            Reject::Waiters(max, _) => (
                429,
                sentence("identity already has ", *max as u64, " waits open"),
            ),
        };
        let retry_after = match self {
            Reject::Limited(_, secs) => Some(*secs),
            Reject::Topics(_, secs) => Some(*secs),
            Reject::Waiters(_, secs) => Some(*secs),
            _ => None,
        };
        ErrorReply {
            status: if soft {
                200
            } else {
                status
            },
            ok: false,
            error,
            server_time: now,
            help: "/",
            retry_after,
        }
    }
}

/// Every answer with status 429 says how long to wait, and no other does.
pub proof fn law_retry_after(reject: RejectView)
    ensures
        reject.retry_after() is Some <==> reject.status() == 429,
        reject matches RejectView::Limited(_, secs) ==> reject.retry_after() == Some(secs),
{
}

/// Every refusal has a status of its own kind: never that of a success.
pub proof fn law_refusals_are_client_errors(reject: RejectView)
    ensures
        400 <= reject.status() < 500,
{
}

/// The status tells the kind of refusal: what is malformed, what is too long,
/// who is not known, what is taken, and what is limited.
pub proof fn law_statuses(message: Seq<char>, scope: Seq<char>, max: usize, secs: u64)
    ensures
        RejectView::Bad(message).status() == 400,
        RejectView::Credentials.status() == 403,
        RejectView::NameTaken.status() == 409,
        RejectView::ContentTooLong(max).status() == 413,
        RejectView::QueryTooLong(max).status() == 414,
        RejectView::Limited(scope, secs).status() == 429,
        RejectView::Topics(max, secs).status() == 429,
        RejectView::Waiters(max, secs).status() == 429,
{
}

/// The explanation gives the limit or the delay in full: the numeral stands
/// between the words, and the number can be read back from it.
pub proof fn law_explanations_give_the_numbers(scope: Seq<char>, max: usize, secs: u64)
    ensures
        RejectView::ContentTooLong(max).error() == "content exceeds "@ + decimal(max as nat)
            + " bytes"@,
        RejectView::QueryTooLong(max).error() == "query exceeds "@ + decimal(max as nat)
            + " bytes"@,
        RejectView::Limited(scope, secs).error() == scope + " rate limit; retry in "@ + decimal(
            secs as nat,
        ) + "s"@,
        RejectView::Topics(max, secs).error() == "identity may create at most "@ + decimal(
            max as nat,
        ) + " topics at its tier"@,
        RejectView::Waiters(max, secs).error() == "identity already has "@ + decimal(max as nat)
            + " waits open"@,
        digits_value(decimal(max as nat)) == max,
        digits_value(decimal(secs as nat)) == secs,
{
    law_numerals_read_back(max as nat);
    law_numerals_read_back(secs as nat);
}

/// A malformed request is told what was found wrong, word for word, and a
/// limit is counted under its scope.
pub proof fn law_words_are_passed_on(message: Seq<char>, scope: Seq<char>, secs: u64)
    ensures
        RejectView::Bad(message).error() == message,
        RejectView::Bad(message).reason() == "bad_request"@,
        RejectView::Limited(scope, secs).reason() == scope,
        RejectView::Limited(scope, secs).retry_after() == Some(secs),
{
}

/// The seconds that a refusal was made with are the seconds that it tells.
pub proof fn law_delays_are_told(max: usize, secs: u64)
    ensures
        RejectView::Topics(max, secs).retry_after() == Some(secs),
        RejectView::Waiters(max, secs).retry_after() == Some(secs),
{
}

/// Every kind of refusal is counted under a label of its own, and the two on
/// credentials say what to do.
pub proof fn law_labels(max: usize, secs: u64)
    ensures
        RejectView::ContentTooLong(max).reason() == "content_too_long"@,
        RejectView::QueryTooLong(max).reason() == "query_too_long"@,
        RejectView::Credentials.reason() == "credentials"@,
        RejectView::NameTaken.reason() == "name_taken"@,
        RejectView::Topics(max, secs).reason() == "topic_limit"@,
        RejectView::Waiters(max, secs).reason() == "waiter_limit"@,
        RejectView::Credentials.error() == "unknown name or wrong pass; register first"@,
        RejectView::NameTaken.error() == "name is taken; choose another or supply its pass"@,
        RejectView::Credentials.retry_after() is None,
        RejectView::NameTaken.retry_after() is None,
        RejectView::ContentTooLong(max).retry_after() is None,
        RejectView::QueryTooLong(max).retry_after() is None,
{
}

/// Whether errors are soft changes the status of an answer and nothing else: a
/// soft one has that of a success, and tells all that a hard one tells.
pub proof fn law_soft_answers(
    hard: ErrorReply,
    soft: ErrorReply,
    reject: RejectView,
    now: u64,
)
    requires
        hard.answers(reject, false, now),
        soft.answers(reject, true, now),
    ensures
        soft.status == 200,
        400 <= hard.status < 500,
        !soft.ok,
        !hard.ok,
        soft.error@ == hard.error@,
        soft.retry_after == hard.retry_after,
        soft.server_time == now,
        hard.server_time == now,
        hard.retry_after is Some <==> hard.status == 429,
        soft.help@ == "/"@,
        hard.help@ == "/"@,
        reject matches RejectView::Bad(message) ==> hard.status == 400 && hard.error@ == message,
{
}

} // verus!
