//! Requests by their links, as a client makes them.

use cbc::board::posts::PostStep;
use cbc::board::registrations::RegisterStep;
use cbc::board::waits::WaitStep;
use cbc::bucket::{Draw, Level, Rate};
use cbc::clock::Moment;
use cbc::help::{help, Fractions};
use cbc::memory::Address;
use cbc::reject::ErrorReply;
use cbc::reply::{PageReply, PostReply, RegisterReply};
use cbc::request::forwarded as hop_in;
use cbc::request::{call, client_ip, is_bare, limit_query, soft, Call, Params, Uri};
use cbc::topic::Message;
use cbc::{App, Config, Number, Reject};
use std::sync::Arc;

const PEER: Address = (4, 0x0a00_0001);

fn number(value: f64) -> Number {
    Number::from_bits(value.to_bits())
}

fn value(number: Number) -> f64 {
    f64::from_bits(number.bits)
}

fn open() -> Config {
    Config {
        probation_secs: 0,
        post_interval_secs: number(0.001),
        post_burst: number(1000.0),
        topic_interval_secs: number(0.001),
        topic_burst: number(10_000.0),
        global_posts_per_sec: number(100_000.0),
        registrations_per_hour: number(10_000.0),
        max_wait_secs: 2,
        timeout_secs: 5,
        ..Config::default()
    }
}

fn meter(draw: &Draw) -> Level {
    let per_sec = match draw.rate {
        Rate::PerHour(rate) => value(rate) / 3600.0,
        Rate::PerSecond(rate) => value(rate),
        Rate::Every(interval) => 1.0 / value(interval),
        Rate::Shared { interval, budget, sharers } => {
            (1.0 / value(interval)).min(value(budget) / sharers as f64)
        }
    };
    let elapsed = (draw.at - draw.bucket.last) as f64 / 1e9;
    let tokens = (value(draw.bucket.tokens) + elapsed * per_sec).min(value(draw.burst));
    Level {
        tokens: number(tokens),
        spent: number(tokens - 1.0),
        delay: ((1.0 - tokens) / per_sec).ceil() as u64,
    }
}

/// What a request was answered.
#[derive(Debug)]
enum Reply {
    Help(String),
    Register(RegisterReply),
    Post(PostReply),
    Page(PageReply),
    Error(ErrorReply),
}

impl Reply {
    fn status(&self) -> u16 {
        match self {
            Reply::Error(reply) => reply.status,
            _ => 200,
        }
    }

    fn error(self) -> ErrorReply {
        match self {
            Reply::Error(reply) => reply,
            other => panic!("{other:?}"),
        }
    }

    fn page(self) -> PageReply {
        match self {
            Reply::Page(reply) => reply,
            other => panic!("{other:?}"),
        }
    }

    fn post(self) -> PostReply {
        match self {
            Reply::Post(reply) => reply,
            other => panic!("{other:?}"),
        }
    }

    fn register(self) -> RegisterReply {
        match self {
            Reply::Register(reply) => reply,
            other => panic!("{other:?}"),
        }
    }
}

fn uri(link: &str) -> Uri {
    match link.split_once('?') {
        Some((path, query)) => Uri { path: path.to_string(), query: Some(query.to_string()) },
        None => Uri { path: link.to_string(), query: None },
    }
}

fn params(uri: &Uri) -> Params {
    let query = uri.query.clone().unwrap_or_default();
    let pairs: Vec<(String, String)> = serde_urlencoded::from_str(&query).unwrap();
    let find = |key: &str| pairs.iter().find(|(k, _)| k == key).map(|(_, v)| v.clone());
    let count = |key: &str| find(key).map(|v| v.parse::<u64>().unwrap());
    Params {
        topic: find("topic"),
        content: find("content"),
        n: count("n").map(|n| n as usize),
        after: count("after"),
        min_age: count("min_age"),
        wait: count("wait"),
        name: find("name"),
        pass: find("pass"),
        ephemeral: find("ephemeral").is_some_and(|v| v == "true"),
    }
}

fn address(text: &str) -> Option<Address> {
    let mut bits: u128 = 0;
    for part in text.split('.') {
        bits = bits * 256 + part.parse::<u8>().ok()? as u128;
    }
    Some((4, bits))
}

/// A board with a clock of its own.
struct Router {
    app: App,
    at: Moment,
}

fn build(config: Config) -> Router {
    let at = Moment { now: 1_700_000_000, clock: 1_000_000_000 };
    Router { app: App::new(config, at), at }
}

impl Router {
    fn sleep_millis(&mut self, millis: u64) {
        self.at.clock += millis * 1_000_000;
    }

    fn refused(&self, uri: &Uri, reject: Reject) -> Reply {
        Reply::Error(reject.response(soft(uri), self.at.now))
    }

    fn register_from(&mut self, link: &str, forwarded: Option<&str>, peer: Address) -> Reply {
        let uri = uri(link);
        let fields: Vec<String> = forwarded.iter().map(|chain| chain.to_string()).collect();
        let hop = hop_in(&fields).and_then(|hop| address(&hop));
        let ip = client_ip(self.app.config(), hop, peer);
        let result = match self.app.register(ip, params(&uri), self.at) {
            RegisterStep::Refused(reject) => Err(reject),
            RegisterStep::Known(reply) => Ok(reply),
            RegisterStep::Draw(draw, registering) => {
                assert!(self.app.can_enroll());
                self.app.enroll(registering, meter(&draw))
            }
        };
        match result {
            Ok(reply) => Reply::Register(reply),
            Err(reject) => self.refused(&uri, reject),
        }
    }

    fn post_to(&mut self, uri: &Uri, topic: &str, params: &Params, content: String) -> Reply {
        let mut step = self.app.post(topic, params, content, self.at);
        loop {
            match step {
                PostStep::Refused(reject) => return self.refused(uri, reject),
                PostStep::Repeated(reply) => return Reply::Post(reply),
                PostStep::Draw(draw, posting) => {
                    step = self.app.resume(posting, meter(&draw));
                }
                PostStep::Posted(reply, _) => return Reply::Post(reply),
            }
        }
    }

    /// Fetches a link. While a wait blocks, `meanwhile` goes on.
    fn fetch_while(&mut self, link: &str, meanwhile: impl FnOnce(&mut Router, u64)) -> Reply {
        self.at.clock += 1_000;
        let uri = uri(link);
        if let Err(reject) = limit_query(self.app.config(), &uri) {
            return self.refused(&uri, reject);
        }
        if uri.path == "/register" {
            return self.register_from(link, None, PEER);
        }
        if is_bare(&uri) {
            let config = self.app.config();
            let fractions = Fractions {
                registrations_per_hour: value(config.registrations_per_hour).to_string(),
                probation_interval_secs: value(config.probation_interval_secs).to_string(),
                post_interval_secs: value(config.post_interval_secs).to_string(),
                post_burst: value(config.post_burst).to_string(),
            };
            return Reply::Help(help(config, &fractions));
        }
        let params = params(&uri);
        match call(&params) {
            Err(reject) => self.refused(&uri, reject),
            Ok(Call::Read { topic }) => Reply::Page(self.app.read(&topic, &params, self.at.now)),
            Ok(Call::Post { topic, content }) => self.post_to(&uri, &topic, &params, content),
            Ok(Call::Wait { topic, secs }) => match self.app.wait(&topic, &params, secs, self.at) {
                WaitStep::Refused(reject) => self.refused(&uri, reject),
                WaitStep::Ready(reply) => Reply::Page(reply),
                WaitStep::Block(mut waiting) => {
                    meanwhile(self, waiting.secs);
                    let mut arrived: Vec<Arc<Message>> = Vec::new();
                    while let Ok(message) = waiting.listening.rx.try_recv() {
                        arrived.push(message);
                    }
                    let now: u64 = self.at.now;
                    let reply = self.app.wait_page(&topic, &params, &arrived, waiting.gap, now);
                    self.app.release(waiting.id);
                    Reply::Page(reply)
                }
            },
        }
    }

    fn fetch(&mut self, link: &str) -> Reply {
        self.fetch_while(link, |_, _| ())
    }

    fn register(&mut self, name: &str, pass: &str) -> Reply {
        self.fetch(&format!("/register?{}", creds(name, pass)))
    }

    fn ready(&mut self, name: &str, pass: &str) {
        self.register(name, pass).register();
    }

    fn post(&mut self, topic: &str, content: &str, name: &str, pass: &str) -> Reply {
        self.fetch(&post_url(topic, content, name, pass))
    }

    fn posted(&mut self, topic: &str, content: &str, name: &str, pass: &str) -> u64 {
        self.post(topic, content, name, pass).post().seq.unwrap().unwrap()
    }

    fn items(&mut self, link: &str) -> Vec<Arc<Message>> {
        self.fetch(link).page().items
    }
}

fn creds(name: &str, pass: &str) -> String {
    serde_urlencoded::to_string([("name", name), ("pass", pass)]).unwrap()
}

fn post_url(topic: &str, content: &str, name: &str, pass: &str) -> String {
    let query = serde_urlencoded::to_string([
        ("topic", topic),
        ("content", content),
        ("name", name),
        ("pass", pass),
    ])
    .unwrap();
    format!("/?{query}")
}

fn wait_url(topic: &str, after: u64, wait: u64, name: &str, pass: &str) -> String {
    format!("/?topic={topic}&after={after}&wait={wait}&{}", creds(name, pass))
}

fn contents(items: &[Arc<Message>]) -> Vec<&str> {
    items.iter().map(|i| i.content.as_str()).collect()
}

fn seqs(items: &[Arc<Message>]) -> Vec<Option<u64>> {
    items.iter().map(|i| i.seq).collect()
}

// --------------------------------------------------------------- transport

#[test]
fn help_on_bare_root() {
    let mut router = build(Config { max_content_bytes: 777, probation_topics: 3, ..open() });
    for link in ["/", "/?"] {
        let text = match router.fetch(link) {
            Reply::Help(text) => text,
            other => panic!("{other:?}"),
        };
        assert!(text.contains("REGISTER") && text.contains("WAIT") && text.contains("ENCODING"));
        assert!(text.contains("1 to 777 bytes"), "{text}");
        assert!(text.contains("may create 3 topic"), "{text}");
        let placeholder = |rest: &str| {
            rest.split('}').next().is_some_and(|k| {
                !k.is_empty() && k.chars().all(|c| c.is_ascii_lowercase() || c == '_')
            })
        };
        assert!(
            !text.split('{').skip(1).any(placeholder),
            "unreplaced placeholder in {text}"
        );
    }
}

#[test]
fn soft_errors_are_200() {
    let mut router = build(open());
    let reply = router.fetch("/?topic=&soft=1");
    assert_eq!(reply.status(), 200);
    let body = reply.error();
    assert!(!body.ok);
    assert!(body.error.contains("topic"));
    let reply = router.fetch("/register?name=x&soft=true");
    assert_eq!(reply.status(), 200);
    assert!(!reply.error().ok);
    let reply = router.fetch(&format!("/?topic={}&soft=1", "x".repeat(9000)));
    assert_eq!(reply.status(), 200);
    assert!(!reply.error().ok);
    let reply = router.fetch("/?topic=&soft=0");
    assert_eq!(reply.status(), 400);
}

#[test]
fn transport_rules() {
    let mut router = build(open());
    let reply = router.fetch(&format!("/?topic={}", "x".repeat(9000)));
    assert_eq!(reply.status(), 414);
    assert!(reply.error().error.contains("8192"));
    assert_eq!(router.fetch("/?topic=t").status(), 200);
    assert_eq!(router.fetch("/?topic=").status(), 400);
    assert_eq!(router.fetch("/register?name=a&pass=passphrase").status(), 200);
}

// ------------------------------------------------------------------- posts

#[test]
fn post_requires_credentials() {
    let mut router = build(open());
    router.ready("alice", "passphrase");
    let reply = router.fetch("/?topic=t&content=hi");
    assert_eq!(reply.status(), 400);
    assert!(reply.error().error.contains("register"));
    assert_eq!(router.post("t", "hi", "alice", "wrong-pass").status(), 403);
    assert_eq!(router.post("t", "hi", "nobody", "passphrase").status(), 403);
    assert!(router.items("/?topic=t").is_empty());
}

#[test]
fn post_then_read() {
    let mut router = build(open());
    router.ready("alice", "passphrase");
    let body = router.post("t", "hello there", "alice", "passphrase").post();
    assert!(body.ok);
    assert_eq!(body.seq, Some(Some(1)));
    assert!(!body.duplicate);
    assert_eq!(body.next.read, "/?topic=t&after=1");
    assert!(
        body.next.wait.starts_with("/?topic=t&after=1&wait=2&name=alice&pass=passphrase")
    );
    let items = router.items("/?topic=t");
    assert_eq!(items.len(), 1);
    assert_eq!(items[0].content, "hello there");
    assert_eq!(items[0].sender, "alice");
    assert_eq!(items[0].seq, Some(1));
    assert_eq!(items[0].ts, router.at.now);
    assert_eq!(items[0].sender_since, router.at.now);
}

#[test]
fn ordering_paging_and_next() {
    let mut router = build(Config { default_n: 2, max_n: 3, ..open() });
    router.ready("alice", "passphrase");
    for c in ["a", "b", "c", "d", "e"] {
        router.posted("t", c, "alice", "passphrase");
    }
    assert_eq!(contents(&router.items("/?topic=t")), ["e", "d"]);
    assert_eq!(contents(&router.items("/?topic=t&n=1")), ["e"]);
    assert_eq!(contents(&router.items("/?topic=t&n=99")), ["e", "d", "c"]);
    let page = router.fetch("/?topic=t&after=3").page();
    assert_eq!(contents(&page.items), ["d", "e"]);
    assert!(!page.gap);
    assert_eq!(page.next, "/?topic=t&after=5");
    let gap = router.fetch("/?topic=t&after=0&n=10").page();
    assert!(gap.gap);
    assert_eq!(contents(&gap.items), ["c", "d", "e"]);
    let capped = router.fetch("/?topic=t&after=0").page();
    assert_eq!(contents(&capped.items), ["c", "d"]);
    assert_eq!(capped.next, "/?topic=t&after=4");
    let empty = router.fetch("/?topic=t&after=5").page();
    assert!(empty.items.is_empty());
    assert_eq!(empty.next, "/?topic=t&after=5");
}

#[test]
fn duplicate_post_is_free_and_idempotent() {
    let mut router = build(Config {
        post_burst: number(1.0),
        post_interval_secs: number(3600.0),
        ..open()
    });
    router.ready("alice", "passphrase");
    assert_eq!(router.posted("t", "same", "alice", "passphrase"), 1);
    let reply = router.post("t", "same", "alice", "passphrase");
    assert_eq!(reply.status(), 200);
    let body = reply.post();
    assert!(body.duplicate);
    assert_eq!(body.seq, None);
    assert_eq!(body.next.read, "/?topic=t&after=1");
    assert_eq!(router.items("/?topic=t").len(), 1);
    let reply = router.post("t", "different", "alice", "passphrase");
    assert_eq!(reply.status(), 429);
    assert!(reply.error().error.contains("identity"));
}

#[test]
fn probation_limits() {
    let mut router = build(Config {
        probation_secs: 3600,
        probation_interval_secs: number(300.0),
        probation_topics: 1,
        ..open()
    });
    router.ready("newbie", "passphrase");
    router.ready("other", "passphrase");
    assert_eq!(router.posted("mine", "first", "newbie", "passphrase"), 1);
    let reply = router.post("mine", "second", "newbie", "passphrase");
    assert_eq!(reply.status(), 429);
    let body = reply.error();
    assert!(body.error.contains("identity"));
    assert!((1..=300).contains(&body.retry_after.unwrap()));
    let mut router = build(Config {
        probation_secs: 3600,
        probation_interval_secs: number(0.001),
        probation_topics: 1,
        ..open()
    });
    router.ready("newbie", "passphrase");
    router.ready("other", "passphrase");
    router.posted("mine", "x", "newbie", "passphrase");
    router.sleep_millis(20);
    let reply = router.post("second-topic", "x", "newbie", "passphrase");
    assert_eq!(reply.status(), 429);
    let body = reply.error();
    assert!(body.error.contains("at most 1 topics"), "{}", body.error);
    assert_eq!(body.retry_after, Some(3600));
    router.posted("theirs", "x", "other", "passphrase");
    router.sleep_millis(20);
    router.posted("theirs", "joining an existing topic is fine", "newbie", "passphrase");
}

#[test]
fn established_burst_then_limit() {
    let mut router = build(Config {
        post_burst: number(3.0),
        post_interval_secs: number(3600.0),
        ..open()
    });
    router.ready("alice", "passphrase");
    for i in 0..3 {
        router.posted("t", &format!("m{i}"), "alice", "passphrase");
    }
    let reply = router.post("t", "m3", "alice", "passphrase");
    assert_eq!(reply.status(), 429);
    assert!(reply.error().error.contains("identity"));
}

#[test]
fn per_topic_and_global_limits() {
    let mut router = build(Config {
        topic_burst: number(2.0),
        topic_interval_secs: number(3600.0),
        ..open()
    });
    router.ready("a", "passphrase");
    router.ready("b", "passphrase");
    router.ready("c", "passphrase");
    router.posted("hot", "1", "a", "passphrase");
    router.posted("hot", "2", "b", "passphrase");
    let reply = router.post("hot", "3", "c", "passphrase");
    assert_eq!(reply.status(), 429);
    assert!(reply.error().error.contains("topic rate"));
    router.posted("cool", "elsewhere", "c", "passphrase");

    let mut router = build(Config { global_posts_per_sec: number(1.0), ..open() });
    router.ready("a", "passphrase");
    router.ready("b", "passphrase");
    router.posted("t", "1", "a", "passphrase");
    let reply = router.post("u", "2", "b", "passphrase");
    assert_eq!(reply.status(), 429);
    let error = reply.error().error;
    assert!(error.contains("global") || error.contains("identity"), "{error}");
}

#[test]
fn content_rules_and_ephemeral() {
    let mut router = build(Config { max_content_bytes: 8, ..open() });
    router.ready("alice", "passphrase");
    assert_eq!(router.post("t", "", "alice", "passphrase").status(), 400);
    let reply = router.post("t", "123456789", "alice", "passphrase");
    assert_eq!(reply.status(), 413);
    assert!(reply.error().error.contains("8 bytes"));
    router.posted("t", "12345678", "alice", "passphrase");
    let link = format!("{}&ephemeral=true", post_url("t", "flash", "alice", "passphrase"));
    let body = router.fetch(&link).post();
    assert_eq!(body.seq, Some(None));
    assert_eq!(contents(&router.items("/?topic=t")), ["12345678"]);
    let unicode = "héllo\n\"wörld\" & #tag";
    let mut router = build(open());
    router.ready("alice", "passphrase");
    router.posted("t", unicode, "alice", "passphrase");
    assert_eq!(contents(&router.items("/?topic=t")), [unicode]);
}

#[test]
fn min_age_hides_young_senders() {
    let mut router = build(open());
    router.ready("fresh", "passphrase");
    router.posted("t", "from a newborn", "fresh", "passphrase");
    assert_eq!(router.items("/?topic=t&min_age=0").len(), 1);
    assert!(router.items("/?topic=t&min_age=60").is_empty());
    assert!(router.items("/?topic=t&after=0&min_age=60").is_empty());
    router.at.now += 60;
    assert_eq!(router.items("/?topic=t&min_age=60").len(), 1);
}

#[test]
fn many_identities_one_topic() {
    let mut router = build(open());
    let mut seqs: Vec<u64> = Vec::new();
    for i in 0..40 {
        let name = format!("agent{i}");
        router.ready(&name, "passphrase");
        seqs.push(router.posted("t", &format!("m{i}"), &name, "passphrase"));
    }
    seqs.sort();
    assert_eq!(seqs, (1..=40).collect::<Vec<u64>>());
    assert_eq!(router.items("/?topic=t&n=100").len(), 40);
}

#[test]
fn reading_an_unknown_topic_is_empty_and_creates_nothing() {
    let mut router = build(open());
    let body = router.fetch("/?topic=ghost").page();
    assert!(body.items.is_empty());
    assert!(!body.gap);
    assert_eq!(body.next, "/?topic=ghost&after=0");
    let paged = router.fetch("/?topic=ghost&after=7").page();
    assert_eq!(paged.next, "/?topic=ghost&after=7");
    router.ready("alice", "passphrase");
    let mut router = build(Config { probation_secs: 3600, probation_topics: 1, ..open() });
    router.ready("alice", "passphrase");
    router.fetch("/?topic=ghost").page();
    router.posted("real", "reading ghost did not use my one topic", "alice", "passphrase");
}

// ----------------------------------------------------------- registrations

#[test]
fn register_creates_then_recognizes() {
    let mut router = build(Config { probation_secs: 3600, ..open() });
    let body = router.register("scout-7", "blue-lantern-42").register();
    assert!(body.ok);
    assert!(!body.existing);
    assert_eq!(body.tier, "probation");
    assert_eq!(body.limits.topics, 1);
    assert_eq!(body.since, router.at.now);
    let post = &body.how.post;
    assert!(
        post.contains("name=scout-7")
            && post.contains("pass=blue-lantern-42")
            && post.contains("topic=TOPIC"),
        "{post}"
    );
    assert!(body.how.wait.contains("wait=2"));

    router.at.now += 5;
    let again = router.register("scout-7", "blue-lantern-42").register();
    assert!(again.existing);
    assert_eq!(again.since, body.since);
}

#[test]
fn register_rejects_bad_input() {
    let mut router = build(open());
    router.ready("taken", "correct-pass");
    let long = format!("/register?name={}&pass=longenough", "a".repeat(33));
    let cases: [(&str, u16, &str); 7] = [
        ("/register?name=taken&pass=wrong-pass", 409, "taken"),
        ("/register?name=x", 400, "required"),
        ("/register?pass=longenough", 400, "required"),
        ("/register?name=has%20space&pass=longenough", 400, "1 to 32"),
        ("/register?name=&pass=longenough", 400, "1 to 32"),
        (&long, 400, "1 to 32"),
        ("/register?name=ok&pass=short", 400, "8 to 128"),
    ];
    for (link, status, needle) in cases {
        let body = router.fetch(link).error();
        assert_eq!(body.status, status, "{link}");
        assert!(body.error.contains(needle), "{link}");
        assert!(!body.ok);
        assert_eq!(body.help, "/");
        assert_eq!(body.server_time, router.at.now);
    }
}

#[test]
fn registrations_throttled_per_ip() {
    let mut router = build(Config { registrations_per_hour: number(2.0), ..open() });
    router.ready("one", "passphrase");
    router.ready("two", "passphrase");
    let reply = router.register("three", "passphrase");
    assert_eq!(reply.status(), 429);
    let body = reply.error();
    assert!(body.error.contains("registration"));
    assert!(body.retry_after.unwrap() > 0);
    assert_eq!(
        router.register("one", "passphrase").status(),
        200,
        "existing identity is not a registration"
    );
    let link = format!("/register?{}", creds("three", "passphrase"));
    assert_eq!(
        router.register_from(&link, None, (4, 0x0a00_0002)).status(),
        200,
        "other address has its own budget"
    );
}

#[test]
fn forwarded_for_only_when_trusted() {
    let link = |n: u8| format!("/register?{}", creds(&format!("agent{n}"), "passphrase"));
    let mut untrusting = build(Config { registrations_per_hour: number(1.0), ..open() });
    assert_eq!(untrusting.register_from(&link(1), Some("1.1.1.1"), PEER).status(), 200);
    assert_eq!(untrusting.register_from(&link(2), Some("2.2.2.2"), PEER).status(), 429);
    let mut trusting = build(Config {
        registrations_per_hour: number(1.0),
        trust_forwarded_for: true,
        ..open()
    });
    assert_eq!(trusting.register_from(&link(1), Some("1.1.1.1, 9.9.9.9"), PEER).status(), 200);
    assert_eq!(trusting.register_from(&link(2), Some("2.2.2.2, 9.9.9.9"), PEER).status(), 429);
    assert_eq!(trusting.register_from(&link(3), Some("2.2.2.2, 8.8.8.8"), PEER).status(), 200);
}

#[test]
fn register_reports_topics_created() {
    let mut router = build(open());
    router.ready("alice", "passphrase");
    router.posted("first", "x", "alice", "passphrase");
    router.posted("second", "y", "alice", "passphrase");
    router.posted("first", "z", "alice", "passphrase");
    let body = router.register("alice", "passphrase").register();
    assert_eq!(body.limits.topics_created, 2);
    assert!(body.existing);
}

// ------------------------------------------------------------------- waits

#[test]
fn wait_returns_immediately_when_behind() {
    let mut router = build(open());
    router.ready("alice", "passphrase");
    router.posted("t", "one", "alice", "passphrase");
    router.posted("t", "two", "alice", "passphrase");
    let body = router
        .fetch_while(&wait_url("t", 1, 2, "alice", "passphrase"), |_, _| panic!("blocked"))
        .page();
    assert_eq!(contents(&body.items), ["two"]);
    assert_eq!(
        body.next,
        format!("/?topic=t&after=2&wait=2&{}", creds("alice", "passphrase"))
    );
}

#[test]
fn wait_blocks_until_a_post_arrives() {
    let mut router = build(open());
    router.ready("reader", "passphrase");
    router.ready("writer", "passphrase");
    let mut blocked: u64 = 0;
    let body = router
        .fetch_while(&wait_url("t", 0, 2, "reader", "passphrase"), |router, secs| {
            blocked = secs;
            router.sleep_millis(300);
            router.posted("t", "late", "writer", "passphrase");
        })
        .page();
    assert_eq!(blocked, 2);
    assert_eq!(contents(&body.items), ["late"]);
    assert_eq!(seqs(&body.items), [Some(1)]);
    assert!(body.next.contains("after=1"));
}

#[test]
fn wait_times_out_empty() {
    let mut router = build(open());
    router.ready("alice", "passphrase");
    let mut blocked: u64 = 0;
    let body = router
        .fetch_while(&wait_url("t", 0, 1, "alice", "passphrase"), |_, secs| blocked = secs)
        .page();
    assert_eq!(blocked, 1);
    assert!(body.items.is_empty());
    assert!(body.next.contains("after=0"));
}

#[test]
fn wait_is_capped_to_max_wait() {
    let mut router = build(Config { max_wait_secs: 1, ..open() });
    router.ready("alice", "passphrase");
    let mut blocked: u64 = 0;
    router.fetch_while(&wait_url("t", 0, 60, "alice", "passphrase"), |_, secs| blocked = secs);
    assert_eq!(blocked, 1);
}

#[test]
fn waiter_sees_ephemeral_with_null_seq() {
    let mut router = build(open());
    router.ready("reader", "passphrase");
    router.ready("writer", "passphrase");
    let flash = format!("{}&ephemeral=true", post_url("t", "flash", "writer", "passphrase"));
    let body = router
        .fetch_while(&wait_url("t", 0, 2, "reader", "passphrase"), |router, _| {
            router.fetch(&flash).post();
        })
        .page();
    assert_eq!(contents(&body.items), ["flash"]);
    assert_eq!(seqs(&body.items), [None]);
    assert!(body.next.contains("after=0"));
    assert!(router.items("/?topic=t").is_empty());
}

#[test]
fn waiters_capped_per_identity() {
    let mut router = build(Config { max_waiters: 1, ..open() });
    router.ready("alice", "passphrase");
    router.ready("bob", "passphrase");
    let held = router.fetch_while(&wait_url("t", 0, 1, "alice", "passphrase"), |router, _| {
        let reply = router.fetch(&wait_url("t", 0, 1, "alice", "passphrase"));
        assert_eq!(reply.status(), 429);
        let body = reply.error();
        assert!(body.error.contains("1 waits"));
        assert_eq!(body.retry_after, Some(2));
        let reply = router.fetch(&wait_url("u", 0, 1, "bob", "passphrase"));
        assert_eq!(reply.status(), 200, "other identity unaffected");
    });
    assert_eq!(held.status(), 200);
    let reply = router.fetch(&wait_url("t", 0, 1, "alice", "passphrase"));
    assert_eq!(reply.status(), 200, "slot released after the first wait finished");
}

#[test]
fn wait_requires_credentials_and_counts_topic_creation() {
    let mut router = build(Config {
        probation_secs: 3600,
        probation_interval_secs: number(0.001),
        probation_topics: 1,
        ..open()
    });
    assert_eq!(router.fetch("/?topic=t&after=0&wait=1").status(), 400);
    router.ready("alice", "passphrase");
    let reply = router.fetch(&wait_url("t", 0, 1, "alice", "wrong-pass"));
    assert_eq!(reply.status(), 403);
    let reply = router.fetch(&wait_url("first", 0, 1, "alice", "passphrase"));
    assert_eq!(reply.status(), 200);
    let reply = router.fetch(&wait_url("second", 0, 1, "alice", "passphrase"));
    assert_eq!(reply.status(), 429);
    assert!(reply.error().error.contains("topics"));
}

#[test]
fn wait_applies_min_age_and_n_to_live_messages() {
    let mut router = build(Config { max_n: 5, ..open() });
    router.ready("reader", "passphrase");
    router.ready("newborn", "passphrase");
    let filtered = format!("{}&min_age=60", wait_url("t", 0, 2, "reader", "passphrase"));
    let body = router
        .fetch_while(&filtered, |router, _| {
            for i in 0..3 {
                router.posted("t", &format!("m{i}"), "newborn", "passphrase");
            }
        })
        .page();
    assert!(body.items.is_empty());
    let capped =
        router.fetch(&format!("{}&n=2", wait_url("t", 0, 1, "reader", "passphrase"))).page();
    assert_eq!(capped.items.len(), 2);
    assert!(capped.next.contains("after=2"));
}

// ------------------------------------------------------ the board's promises

#[test]
fn a_session_from_registration_to_wait() {
    let mut router = build(Config::default());
    let body = router.register("scout-7", "blue-lantern-42").register();
    assert_eq!(body.name, "scout-7");
    assert_eq!(value(body.limits.post_interval_secs), 300.0);
    assert_eq!(value(body.limits.post_burst), 1.0);
    assert_eq!(body.limits.topics_created, 0);
    assert_eq!(
        body.how.post,
        "/?topic=TOPIC&content=CONTENT&name=scout-7&pass=blue-lantern-42"
    );
    assert_eq!(
        body.how.post_ephemeral,
        "/?topic=TOPIC&content=CONTENT&ephemeral=true&name=scout-7&pass=blue-lantern-42"
    );
    assert_eq!(body.how.read, "/?topic=TOPIC");
    assert_eq!(
        body.how.wait,
        "/?topic=TOPIC&after=SEQ&wait=25&name=scout-7&pass=blue-lantern-42"
    );
    assert_eq!(body.how.help, "/");
    let link = "/?topic=notes&content=hello%20from%20scout&name=scout-7&pass=blue-lantern-42";
    let reply = router.fetch(link).post();
    assert_eq!(reply.seq, Some(Some(1)));
    assert_eq!(
        reply.next.wait,
        "/?topic=notes&after=1&wait=25&name=scout-7&pass=blue-lantern-42"
    );
    assert_eq!(contents(&router.items("/?topic=notes")), ["hello from scout"]);
    let link = "/?topic=notes&after=1&wait=20&name=scout-7&pass=blue-lantern-42";
    let mut blocked: u64 = 0;
    let page = router.fetch_while(link, |_, secs| blocked = secs).page();
    assert_eq!(blocked, 20);
    assert!(page.items.is_empty());
    assert_eq!(page.next, link);
}

#[test]
fn a_refused_post_leaves_no_message() {
    let mut router = build(Config {
        topic_burst: number(1.0),
        topic_interval_secs: number(3600.0),
        ..open()
    });
    router.ready("alice", "passphrase");
    router.posted("t", "kept", "alice", "passphrase");
    assert_eq!(router.post("t", "dropped", "alice", "passphrase").status(), 429);
    assert_eq!(contents(&router.items("/?topic=t")), ["kept"]);
    // It was not made, so trying it again is no repetition.
    assert_eq!(router.post("t", "dropped", "alice", "passphrase").status(), 429);
    router.sleep_millis(3_600_000);
    assert_eq!(router.posted("t", "dropped", "alice", "passphrase"), 2);
}

#[test]
fn only_made_posts_are_heard() {
    let mut router = build(Config {
        topic_burst: number(1.0),
        topic_interval_secs: number(3600.0),
        ..open()
    });
    router.ready("reader", "passphrase");
    router.ready("writer", "passphrase");
    let page = router
        .fetch_while(&wait_url("t", 0, 2, "reader", "passphrase"), |router, _| {
            router.posted("t", "made", "writer", "passphrase");
            assert!(router.post("t", "made", "writer", "passphrase").post().duplicate);
            assert_eq!(router.post("t", "refused", "writer", "passphrase").status(), 429);
            assert_eq!(router.post("t", "", "writer", "passphrase").status(), 400);
            router.posted("u", "elsewhere", "writer", "passphrase");
        })
        .page();
    assert_eq!(contents(&page.items), ["made"]);
}

#[test]
fn a_repeated_post_is_told_the_latest_position() {
    let mut router = build(open());
    router.ready("alice", "passphrase");
    router.posted("t", "one", "alice", "passphrase");
    router.posted("t", "two", "alice", "passphrase");
    let body = router.post("t", "one", "alice", "passphrase").post();
    assert!(body.duplicate && body.ok);
    assert_eq!(body.next.read, "/?topic=t&after=2");
    // The same words elsewhere, or from someone else, are another post.
    router.ready("bob", "passphrase");
    assert_eq!(router.posted("u", "one", "alice", "passphrase"), 1);
    assert_eq!(router.posted("t", "one", "bob", "passphrase"), 3);
}

#[test]
fn an_empty_identity_bucket_fills_with_time() {
    let mut router = build(Config {
        post_burst: number(1.0),
        post_interval_secs: number(10.0),
        ..open()
    });
    router.ready("alice", "passphrase");
    router.posted("t", "one", "alice", "passphrase");
    let body = router.post("t", "two", "alice", "passphrase").error();
    assert_eq!(body.retry_after, Some(10));
    assert_eq!(body.error, "identity rate limit; retry in 10s");
    router.sleep_millis(10_000);
    assert_eq!(router.posted("t", "two", "alice", "passphrase"), 2);
}

#[test]
fn posts_are_recognised_whatever_they_hold() {
    let mut router = build(Config { probation_secs: 0, ..Config::default() });
    router.ready("alice", "passphrase");
    assert_eq!(router.posted("a", "b\u{0}c", "alice", "passphrase"), 1);
    let body = router.post("a\u{0}b", "c", "alice", "passphrase").post();
    assert!(!body.duplicate);
    assert_eq!(body.seq, Some(Some(1)));
    assert!(router.post("a", "b\u{0}c", "alice", "passphrase").post().duplicate);
}

#[test]
fn a_topic_allowance_says_when_it_grows() {
    let mut router = build(Config {
        probation_secs: 3600,
        probation_interval_secs: number(0.001),
        max_topics_per_identity: 2,
        ..open()
    });
    router.ready("alice", "passphrase");
    router.posted("one", "x", "alice", "passphrase");
    router.at.now += 600;
    router.sleep_millis(20);
    let body = router.post("two", "x", "alice", "passphrase").error();
    assert_eq!(body.retry_after, Some(3000));
    router.at.now += 3000;
    router.sleep_millis(20);
    router.posted("two", "x", "alice", "passphrase");
    // The allowance will not grow again.
    let body = router.post("three", "x", "alice", "passphrase").error();
    assert_eq!(body.error, "identity may create at most 2 topics at its tier");
    assert_eq!(body.retry_after, Some(2_592_000));
}

#[test]
fn kept_posts_are_numbered_in_order() {
    let mut router = build(Config { max_n: 3, ..open() });
    router.ready("alice", "passphrase");
    router.ready("bob", "passphrase");
    let mut numbers: Vec<u64> = Vec::new();
    for i in 0..6 {
        let name = if i % 2 == 0 { "alice" } else { "bob" };
        numbers.push(router.posted("t", &format!("m{i}"), name, "passphrase"));
        let flash = post_url("t", &format!("f{i}"), name, "passphrase");
        router.fetch(&format!("{flash}&ephemeral=true")).post();
        assert_eq!(router.post("t", "", name, "passphrase").status(), 400);
    }
    assert_eq!(numbers, [1, 2, 3, 4, 5, 6]);
    assert_eq!(seqs(&router.items("/?topic=t&n=9")), [Some(6), Some(5), Some(4)]);
}

#[test]
fn templates_carry_any_passphrase() {
    let mut router = build(open());
    for (name, pass) in [("a", "with space&=#%+"), ("b", "héllo wörld"), ("c", "SEQSEQSEQ")] {
        let body = router.register(name, pass).register();
        let link = body.how.post.replace("TOPIC", "t").replace("CONTENT", "hi");
        assert!(router.fetch(&link).post().ok, "{link}");
        let wait = body.how.wait.replacen("TOPIC", "t", 1).replacen("SEQ", "0", 1);
        assert!(!router.fetch(&wait).page().items.is_empty());
        let flash = body.how.post_ephemeral.replace("TOPIC", "t").replace("CONTENT", "now");
        assert_eq!(router.fetch(&flash).post().seq, Some(None));
    }
}

#[test]
fn posts_to_one_topic_leave_the_others() {
    let mut router = build(open());
    router.ready("alice", "passphrase");
    router.posted("t", "one", "alice", "passphrase");
    router.posted("u", "two", "alice", "passphrase");
    router.posted("u", "three", "alice", "passphrase");
    assert_eq!(contents(&router.items("/?topic=t")), ["one"]);
    assert_eq!(contents(&router.items("/?topic=u")), ["three", "two"]);
}

#[test]
fn pages_follow_each_other_without_loss() {
    let mut router = build(open());
    router.ready("alice", "passphrase");
    for i in 0..7 {
        router.posted("t", &format!("m{i}"), "alice", "passphrase");
    }
    let mut link = "/?topic=t&after=0&n=3".to_string();
    let mut seen: Vec<u64> = Vec::new();
    loop {
        let page = router.fetch(&link).page();
        if page.items.is_empty() {
            assert!(page.next.contains("after=7"));
            break;
        }
        seen.extend(page.items.iter().map(|m| m.seq.unwrap()));
        link = format!("{}&n=3", page.next);
    }
    assert_eq!(seen, [1, 2, 3, 4, 5, 6, 7]);
}

#[test]
fn an_identity_vests_with_age_alone() {
    let mut router = build(Config { probation_secs: 3600, ..open() });
    router.ready("alice", "passphrase");
    router.at.now += 3599;
    let body = router.register("alice", "passphrase").register();
    assert_eq!((body.tier, body.limits.topics), ("probation", 1));
    router.at.now += 1;
    let body = router.register("alice", "passphrase").register();
    assert_eq!((body.tier, body.limits.topics), ("established", 20));
    assert_eq!(value(body.limits.post_burst), 1000.0);
}

#[test]
fn registering_again_costs_nothing() {
    let mut router = build(Config { registrations_per_hour: number(1.0), ..open() });
    router.ready("alice", "passphrase");
    for _ in 0..5 {
        assert!(router.register("alice", "passphrase").register().existing);
    }
    assert_eq!(router.register("alice", "wrong-pass").error().error,
        "name is taken; choose another or supply its pass");
    let body = router.register("bob", "passphrase").error();
    assert_eq!(body.error, "registration rate limit; retry in 3600s");
    assert_eq!(router.post("t", "hi", "bob", "passphrase").status(), 403);
}

#[test]
fn waits_are_released_one_by_one() {
    let mut router = build(Config { max_waiters: 2, ..open() });
    router.ready("alice", "passphrase");
    let link = wait_url("t", 0, 1, "alice", "passphrase");
    router.fetch_while(&link, |router, _| {
        router.fetch_while(&link, |router, _| {
            assert_eq!(
                router.fetch(&link).error().error,
                "identity already has 2 waits open"
            );
        });
        assert_eq!(router.fetch(&link).status(), 200);
    });
}

#[test]
fn a_wait_that_is_behind_reports_the_gap() {
    let mut router = build(Config { max_n: 2, ..open() });
    router.ready("alice", "passphrase");
    for c in ["a", "b", "c", "d"] {
        router.posted("t", c, "alice", "passphrase");
    }
    let page = router.fetch(&wait_url("t", 0, 1, "alice", "passphrase")).page();
    assert!(page.gap);
    assert_eq!(seqs(&page.items), [Some(3), Some(4)]);
    let page = router.fetch(&wait_url("t", 2, 1, "alice", "passphrase")).page();
    assert!(!page.gap);
}

#[test]
fn a_wait_with_something_to_show_is_a_read() {
    let mut router = build(open());
    router.ready("alice", "passphrase");
    for c in ["a", "b", "c"] {
        router.posted("t", c, "alice", "passphrase");
    }
    let read = router.fetch("/?topic=t&after=1").page();
    let wait = router.fetch(&wait_url("t", 1, 2, "alice", "passphrase")).page();
    assert_eq!(seqs(&wait.items), seqs(&read.items));
    assert_eq!((wait.gap, wait.topic), (read.gap, read.topic));
}

#[test]
fn a_read_from_the_last_position_is_no_gap() {
    let mut router = build(open());
    router.ready("alice", "passphrase");
    router.posted("t", "one", "alice", "passphrase");
    let page = router.fetch(&format!("/?topic=t&after={}", u64::MAX)).page();
    assert!(page.items.is_empty());
    assert!(!page.gap);
    assert_eq!(page.next, format!("/?topic=t&after={}", u64::MAX));
}

#[test]
fn posts_share_the_budget_of_the_board() {
    let mut router = build(Config { global_posts_per_sec: number(2.0), ..open() });
    router.ready("a", "passphrase");
    router.ready("b", "passphrase");
    router.posted("t", "1", "a", "passphrase");
    router.posted("t", "2", "b", "passphrase");
    let body = router.post("t", "3", "a", "passphrase").error();
    assert_eq!(body.error, "global rate limit; retry in 1s");
    router.sleep_millis(1_000);
    assert_eq!(router.posted("t", "3", "a", "passphrase"), 3);
}

#[test]
fn links_carry_any_topic_and_passphrase() {
    let mut router = build(open());
    router.ready("alice", "pass phrase&=%é");
    let body = router.post("café & co", "hi", "alice", "pass phrase&=%é").post();
    assert_eq!(body.next.read, "/?topic=caf%C3%A9+%26+co&after=1");
    let link = "/?topic=caf%C3%A9+%26+co&after=1&wait=2&name=alice&pass=pass+phrase%26%3D%25%C3%A9";
    assert_eq!(body.next.wait, link);
    let page = router.fetch(link).page();
    assert_eq!(page.topic, "café & co");
    assert_eq!(page.next, link);
}
