//! The rules one by one.

use cbc::board::is_usable;
use cbc::board::posts::{open_post, screen, PostStep, Stage};
use cbc::board::registrations::{wanted, RegisterStep};
use cbc::board::waits::WaitStep;
use cbc::bucket::{Bucket, Level, Rate};
use cbc::clock::{seconds_at, Moment};
use cbc::digest::{bytes_of, hash, post_key, same_bytes, same_digest};
use cbc::form::{credentials, key_read, position, read_form};
use cbc::help::{fill, help, Fractions, HELP};
use cbc::identity::{let_in, tier_at, valid_name, valid_pass};
use cbc::memory::{Address, LONGEST_SECS};
use cbc::number::{INFINITY_BITS, ONE_BITS};
use cbc::reply::{page, PostReply, RegisterReply};
use cbc::request::{call, client_ip, forwarded, is_bare, last_hop, limit_query, redact, soft, Call, Params, Uri};
use cbc::text::{join, numeral, replace, split, trim};
use cbc::topic::{cursor, items, limit, live_items, young, Message, Topic};
use cbc::{App, Config, Identity, Number, Reject};
use std::sync::Arc;
use std::time::{Duration, SystemTime};

fn number(value: f64) -> Number {
    Number::from_bits(value.to_bits())
}

fn uri(link: &str) -> Uri {
    match link.split_once('?') {
        Some((path, query)) => Uri { path: path.to_string(), query: Some(query.to_string()) },
        None => Uri { path: link.to_string(), query: None },
    }
}

fn nothing() -> Params {
    Params {
        topic: None,
        content: None,
        n: None,
        after: None,
        min_age: None,
        wait: None,
        name: None,
        pass: None,
        ephemeral: false,
    }
}

fn named(name: &str, pass: &str) -> Params {
    Params { name: Some(name.to_string()), pass: Some(pass.to_string()), ..nothing() }
}

fn bucket() -> Bucket {
    Bucket::full(Number::one(), 0)
}

fn identity(id: u64, name: &str, pass: &str) -> Arc<Identity> {
    let mut app = App::new(Config::default(), AT);
    match app.register(HOME, named(name, pass), AT) {
        RegisterStep::Draw(_, registering) => {
            app.enroll(registering, YIELDS).unwrap();
        }
        _ => panic!("no draw"),
    }
    let fresh = app.authenticate(&Some(name.to_string()), &Some(pass.to_string())).unwrap();
    Arc::new(Identity { id, since: 100, ..fresh.set_bucket(bucket()) })
}

fn topic_with(max_n: usize, count: u64) -> Topic {
    let mut topic = Topic::new(max_n, bucket());
    for i in 1..=count {
        let content = format!("m{i}");
        topic = topic.publish(max_n, false, 500 + i, "alice".to_string(), 100 * i, content).0;
    }
    topic
}

fn seqs(messages: &[Arc<Message>]) -> Vec<Option<u64>> {
    messages.iter().map(|m| m.seq).collect()
}

const AT: Moment = Moment { now: 1_000, clock: 9 };

const HOME: Address = (4, 1);

const YIELDS: Level =
    Level { tokens: Number { bits: ONE_BITS }, spent: Number { bits: 0 }, delay: 0 };

const EMPTY: Level = Level { tokens: Number { bits: 0 }, spent: Number { bits: 0 }, delay: 42 };

fn reason<T>(result: Result<T, Reject>) -> String {
    match result {
        Ok(_) => "none".to_string(),
        Err(reject) => reject.response(false, 0).error,
    }
}

// ---------------------------------------------------------------- settings

#[test]
fn config_validation() {
    assert_eq!(Config::default().validate(), Ok(()));
    let cases: [(Config, &str); 8] = [
        (Config { max_n: 0, ..Config::default() }, "max_n"),
        (Config { max_memory_bytes: 10, ..Config::default() }, "max_memory_bytes"),
        (
            Config { max_wait_secs: 30, timeout_secs: 30, ..Config::default() },
            "max_wait_secs",
        ),
        (Config { probation_topics: 0, ..Config::default() }, "probation_topics"),
        (Config { max_waiters: 0, ..Config::default() }, "max_waiters"),
        (
            Config { registrations_per_hour: number(0.0), ..Config::default() },
            "registrations_per_hour",
        ),
        (
            Config { post_interval_secs: number(-1.0), ..Config::default() },
            "post_interval_secs",
        ),
        (
            Config { global_posts_per_sec: number(f64::NAN), ..Config::default() },
            "global_posts_per_sec",
        ),
    ];
    for (config, needle) in cases {
        let error = config.validate().unwrap_err();
        assert!(error.contains(needle), "{error}");
    }
    let config = Config {
        max_memory_bytes: 1 << 30,
        max_identities: 1 << 18,
        max_content_bytes: 1024,
        max_n: 100,
        ..Config::default()
    };
    assert_eq!(config.max_topics(), ((1u64 << 30) - (1 << 18) * 512) / (1152 * 100));
}

#[test]
fn each_fraction_must_be_positive() {
    let bad: [f64; 5] = [0.0, -0.0, -2.5, f64::INFINITY, f64::NAN];
    for value in bad {
        let bad = number(value);
        let cases: [(Config, &str); 7] = [
            (
                Config { registrations_per_hour: bad, ..Config::default() },
                "registrations_per_hour must be positive",
            ),
            (
                Config { probation_interval_secs: bad, ..Config::default() },
                "probation_interval_secs must be positive",
            ),
            (
                Config { post_interval_secs: bad, ..Config::default() },
                "post_interval_secs must be positive",
            ),
            (Config { post_burst: bad, ..Config::default() }, "post_burst must be positive"),
            (
                Config { topic_interval_secs: bad, ..Config::default() },
                "topic_interval_secs must be positive",
            ),
            (Config { topic_burst: bad, ..Config::default() }, "topic_burst must be positive"),
            (
                Config { global_posts_per_sec: bad, ..Config::default() },
                "global_posts_per_sec must be positive",
            ),
        ];
        for (config, message) in cases {
            assert_eq!(config.validate(), Err(message.to_string()), "{value}");
        }
    }
    let tiny = Config { post_burst: number(5e-324), ..Config::default() };
    assert_eq!(tiny.validate(), Ok(()));
}

#[test]
fn defaults_are_the_documented_ones() {
    let c = Config::default();
    assert_eq!(c.bind, "0.0.0.0:3000");
    assert_eq!((c.default_n, c.max_n), (10, 100));
    assert_eq!((c.max_content_bytes, c.max_query_bytes), (1024, 8192));
    assert_eq!((c.max_memory_bytes, c.max_concurrency), (1_073_741_824, 1024));
    assert_eq!((c.timeout_secs, c.max_wait_secs, c.max_waiters), (30, 25, 4));
    assert_eq!((c.max_identities, c.identity_ttl_secs), (262_144, 2_592_000));
    assert_eq!((c.probation_secs, c.probation_topics), (3600, 1));
    assert_eq!((c.max_topics_per_identity, c.dedupe_secs), (20, 300));
    assert!(!c.trust_forwarded_for && c.otlp_endpoint.is_none());
    assert_eq!(c.registrations_per_hour, number(3.0));
    assert_eq!(c.probation_interval_secs, number(300.0));
    assert_eq!(c.post_interval_secs, number(10.0));
    assert_eq!(c.post_burst, number(5.0));
    assert_eq!(c.topic_interval_secs, number(2.0));
    assert_eq!(c.topic_burst, number(10.0));
    assert_eq!(c.global_posts_per_sec, number(50.0));
}

#[test]
fn memory_is_divided_among_identities_and_topics() {
    let base = Config {
        max_identities: 10,
        max_content_bytes: 72,
        max_n: 5,
        ..Config::default()
    };
    let with = |bytes: u64| Config { max_memory_bytes: bytes, ..base.clone() }.max_topics();
    assert_eq!(with(5119), 0);
    assert_eq!(with(5120 + 999), 0);
    assert_eq!(with(5120 + 1000), 1);
    assert_eq!(with(5120 + 3999), 3);
    assert_eq!(Config { max_n: 0, ..base }.max_topics(), 0);
}

#[test]
fn figures_too_large_to_count_leave_no_room() {
    let small = "max_memory_bytes too small for identities plus one topic".to_string();
    let cases: [Config; 4] = [
        Config { max_identities: 1 << 55, ..Config::default() },
        Config { max_identities: u64::MAX, max_memory_bytes: u64::MAX, ..Config::default() },
        Config { max_content_bytes: usize::MAX, ..Config::default() },
        Config { max_n: usize::MAX, ..Config::default() },
    ];
    for config in cases {
        assert_eq!(config.max_topics(), 0);
        assert_eq!(config.validate(), Err(small.clone()));
    }
}

#[test]
fn unusable_settings_are_told_apart() {
    assert!(is_usable(&Config::default()));
    assert!(!is_usable(&Config { max_n: 0, ..Config::default() }));
    assert!(!is_usable(&Config { dedupe_secs: LONGEST_SECS + 1, ..Config::default() }));
    assert!(is_usable(&Config { dedupe_secs: LONGEST_SECS, ..Config::default() }));
    assert!(!is_usable(&Config { identity_ttl_secs: u64::MAX, ..Config::default() }));
    let longest = Config {
        dedupe_secs: LONGEST_SECS,
        identity_ttl_secs: LONGEST_SECS,
        ..Config::default()
    };
    assert_eq!(App::new(longest, AT).config().dedupe_secs, LONGEST_SECS);
}

// ----------------------------------------------------------------- numbers

#[test]
fn numbers_are_told_by_their_bits() {
    assert_eq!(Number::one(), number(1.0));
    assert_eq!(INFINITY_BITS, f64::INFINITY.to_bits());
    assert!(number(0.001).is_positive());
    assert_eq!(number(5.0).at_least_one(), number(5.0));
    assert_eq!(number(0.5).at_least_one(), number(1.0));
    assert_eq!(number(-5.0).at_least_one(), number(1.0));
    assert_eq!(number(f64::NAN).at_least_one(), number(1.0));
    assert_eq!(number(f64::INFINITY).at_least_one(), number(f64::INFINITY));
}

#[test]
fn a_bucket_gives_whole_tokens_only() {
    let mut bucket = Bucket::full(number(3.0), 1);
    let level = Level { tokens: number(1.5), spent: number(0.5), delay: 0 };
    assert_eq!(bucket.take(level, 7), Ok(()));
    assert_eq!(bucket, Bucket { tokens: number(0.5), last: 7 });
    for short in [0.999, 0.0, -3.0, f64::NAN] {
        let level = Level { tokens: number(short), spent: number(short - 1.0), delay: 12 };
        assert_eq!(bucket.take(level, 8), Err(12));
        assert_eq!(bucket, Bucket { tokens: number(short), last: 8 });
    }
}

// ------------------------------------------------------------------- texts

#[test]
fn text_is_split_and_joined() {
    assert_eq!(split("a&b&&c", '&'), ["a", "b", "", "c"]);
    assert_eq!(split("", '&'), [""]);
    assert_eq!(split("&", '&'), ["", ""]);
    for text in ["a&b&&c", "", "&", "x"] {
        assert_eq!(join(&split(text, '&'), '&'), text);
    }
}

#[test]
fn text_is_replaced_from_the_left() {
    assert_eq!(replace("aXbXX", "X", "yz"), "ayzbyzyz");
    assert_eq!(replace("aaa", "aa", "b"), "ba");
    assert_eq!(replace("abc", "", "z"), "abc");
    assert_eq!(replace("{a}{b}", "{b}", "{a}"), "{a}{a}");
}

#[test]
fn text_is_trimmed() {
    assert_eq!(trim(" \t\u{a0}1.1.1.1 \n"), "1.1.1.1");
    assert_eq!(trim("a b"), "a b");
    assert_eq!(trim(" \u{3000}"), "");
}

#[test]
fn numerals_are_decimal() {
    let cases: [u64; 6] = [0, 9, 10, 100, 8192, u64::MAX];
    for n in cases {
        assert_eq!(numeral(n), n.to_string());
    }
}

#[test]
fn links_are_form_encoded() {
    assert_eq!(
        credentials("a-b_c.d*e", "héllo +&=%/"),
        "name=a-b_c.d*e&pass=h%C3%A9llo+%2B%26%3D%25%2F"
    );
    assert_eq!(position("comté", 12), "topic=comt%C3%A9&after=12");
    assert_eq!(position("", 0), "topic=&after=0");
    assert_eq!(credentials("scout-7", "~\u{7f}!"), "name=scout-7&pass=%7E%7F%21");
}

// ----------------------------------------------------------------- digests

fn hex(bytes: &[u8]) -> String {
    bytes.iter().map(|b| format!("{b:02x}")).collect()
}

#[test]
fn digests_are_sha256() {
    // Sixteen zero bytes in front of an empty passphrase.
    assert_eq!(
        hex(&hash(&[0; 16], "")),
        "374708fff7719dd5979ec875d56cd2286f6d3cf7ec317a3b25632aab28ec37bb"
    );
    assert_ne!(hash(&[0; 16], "passphrase"), hash(&[1; 16], "passphrase"));
    assert_ne!(hash(&[0; 16], "passphrase"), hash(&[0; 16], "passphrasf"));
    assert_eq!(post_key("a", "t", "x"), post_key("a", "t", "x"));
    assert_eq!(post_key("a", "t", "x").len(), 32);
    assert_ne!(post_key("a", "t", "x"), post_key("at", "", "x"));
    assert_ne!(post_key("a", "t", "x"), post_key("a", "tx", ""));
    assert_ne!(post_key("a", "t", "u\u{0}x"), post_key("a", "t\u{0}u", "x"));
    assert!(same_bytes(&vec![1, 2], &vec![1, 2]));
    assert!(!same_bytes(&vec![1, 2], &vec![1, 3]) && !same_bytes(&vec![1], &vec![1, 2]));
    assert_eq!(bytes_of("é"), [0xc3, 0xa9]);
    assert!(same_digest(&[3; 32], &[3; 32]));
    let mut other: [u8; 32] = [3; 32];
    other[31] = 4;
    assert!(!same_digest(&[3; 32], &other));
}

// ---------------------------------------------------------------- refusals

#[test]
fn refusals_say_why() {
    let cases: [(Reject, &str, u16, &str, Option<u64>); 8] = [
        (Reject::Bad("oops".to_string()), "bad_request", 400, "oops", None),
        (
            Reject::ContentTooLong(8),
            "content_too_long",
            413,
            "content exceeds 8 bytes",
            None,
        ),
        (
            Reject::QueryTooLong(8192),
            "query_too_long",
            414,
            "query exceeds 8192 bytes",
            None,
        ),
        (
            Reject::Credentials,
            "credentials",
            403,
            "unknown name or wrong pass; register first",
            None,
        ),
        (
            Reject::NameTaken,
            "name_taken",
            409,
            "name is taken; choose another or supply its pass",
            None,
        ),
        (
            Reject::Limited("global", 7),
            "global",
            429,
            "global rate limit; retry in 7s",
            Some(7),
        ),
        (
            Reject::Topics(20, 60),
            "topic_limit",
            429,
            "identity may create at most 20 topics at its tier",
            Some(60),
        ),
        (
            Reject::Waiters(4, 25),
            "waiter_limit",
            429,
            "identity already has 4 waits open",
            Some(25),
        ),
    ];
    for (reject, reason, status, error, retry_after) in cases {
        assert_eq!(reject.reason(), reason);
        let hard = reject.response(false, 77);
        assert_eq!((hard.status, hard.error.as_str()), (status, error));
        assert_eq!(hard.retry_after, retry_after);
        assert_eq!((hard.ok, hard.server_time, hard.help), (false, 77, "/"));
        let soft = reject.response(true, 77);
        assert_eq!((soft.status, soft.error.as_str()), (200, error));
        assert_eq!(soft.retry_after, retry_after);
    }
}

// ---------------------------------------------------------------- requests

#[test]
fn redaction_hides_pass_only() {
    let full = uri("/?topic=t&content=hi&name=alice&pass=s3cret&wait=5");
    assert_eq!(redact(&full), "/?topic=t&content=hi&name=alice&pass=[redacted]&wait=5");
    assert_eq!(redact(&uri("/healthz")), "/healthz");
    assert_eq!(
        redact(&uri("/register?pass=first&name=x")),
        "/register?pass=[redacted]&name=x"
    );
}

#[test]
fn redaction_settles_and_forgets() {
    assert_eq!(redact(&uri("/?pass=[redacted]&a=b")), "/?pass=[redacted]&a=b");
    assert_eq!(redact(&uri("/?pass=one&n=1")), redact(&uri("/?pass=other&n=1")));
    assert_eq!(redact(&uri("/?pass=a&pass=b")), "/?pass=[redacted]&pass=[redacted]");
    assert_eq!(redact(&uri("/?compass=n&&x=pass=")), "/?compass=n&&x=pass=");
    assert_eq!(redact(&uri("/?")), "/?");
}

#[test]
fn redaction_reads_names_as_the_server_does() {
    assert_eq!(
        redact(&uri("/?topic=t&name=alice&p%61ss=s3cret")),
        "/?topic=t&name=alice&pass=[redacted]"
    );
    assert_eq!(redact(&uri("/?%70%61%73%73=s3cret&x")), "/?pass=[redacted]&x");
    assert_eq!(redact(&uri("/?pass=a=b")), "/?pass=[redacted]");
    for kept in ["/?pa+ss=x", "/?p%6ss=x", "/?Pass=x", "/?pass", "/?p%2561ss=x", "/?%C3%A9=x"] {
        assert_eq!(redact(&uri(kept)), kept);
    }
}

#[test]
fn encoded_texts_are_read() {
    assert_eq!(read_form("a+b%2B%c3%A9%"), "a b+é%".as_bytes());
    assert_eq!(read_form("%4g%é"), "%4g%é".as_bytes());
    assert_eq!(read_form("%00%ff"), [0x00, 0xff]);
    assert_eq!(key_read("p%61ss=x=y"), Some(b"pass".to_vec()));
    assert_eq!(key_read("=x"), Some(Vec::new()));
    assert_eq!(key_read("pass"), None);
}

#[test]
fn soft_is_asked_for_by_a_part_of_the_query() {
    assert!(soft(&uri("/?soft=1")) && soft(&uri("/?a=b&soft=true")));
    assert!(!soft(&uri("/")) && !soft(&uri("/?")) && !soft(&uri("/?soft=0")));
    assert!(!soft(&uri("/?xsoft=1")) && !soft(&uri("/?soft=10")));
}

#[test]
fn queries_are_bounded_in_bytes() {
    let config = Config { max_query_bytes: 4, ..Config::default() };
    assert!(limit_query(&config, &uri("/")).is_ok());
    assert!(limit_query(&config, &uri("/?abcd")).is_ok());
    assert_eq!(reason(limit_query(&config, &uri("/?abcde"))), "query exceeds 4 bytes");
    assert!(limit_query(&config, &uri("/?éé")).is_ok());
    assert!(limit_query(&config, &uri("/?ééé")).is_err());
}

#[test]
fn parameters_decide_what_is_asked_for() {
    let text = |s: &str| Some(s.to_string());
    assert!(is_bare(&uri("/")) && is_bare(&uri("/?")) && !is_bare(&uri("/?x")));
    assert_eq!(reason(call(&nothing())), "topic is required");
    assert_eq!(reason(call(&Params { topic: text(""), ..nothing() })), "topic is required");
    let read = Params { topic: text("t"), ..nothing() };
    assert!(matches!(call(&read), Ok(Call::Read { topic }) if topic == "t"));
    let wait = Params { wait: Some(3), ..read };
    assert!(matches!(call(&wait), Ok(Call::Wait { topic, secs: 3 }) if topic == "t"));
    let post = Params { content: text(""), ..wait };
    assert!(
        matches!(call(&post), Ok(Call::Post { topic, content }) if topic == "t" && content.is_empty())
    );
}

#[test]
fn the_nearest_proxy_is_believed_where_trusted() {
    assert_eq!(last_hop("1.1.1.1, 9.9.9.9 "), "9.9.9.9");
    assert_eq!(last_hop("1.1.1.1"), "1.1.1.1");
    assert_eq!(last_hop("1.1.1.1,"), "");
    assert_eq!(last_hop(""), "");
    let fields: Vec<String> = vec!["1.1.1.1, 2.2.2.2".to_string(), "3.3.3.3, 9.9.9.9".to_string()];
    assert_eq!(forwarded(&fields), Some("9.9.9.9".to_string()));
    assert_eq!(forwarded(&Vec::new()), None);
    let peer: Address = (4, 1);
    let proxy: Address = (6, 2);
    let trusting = Config { trust_forwarded_for: true, ..Config::default() };
    assert_eq!(client_ip(&Config::default(), Some(proxy), peer), peer);
    assert_eq!(client_ip(&trusting, Some(proxy), peer), proxy);
    assert_eq!(client_ip(&trusting, None, peer), peer);
}

#[test]
fn placeholders_are_filled_one_after_the_other() {
    let pairs: Vec<(&str, String)> = vec![("{a}", "{b}".to_string()), ("{b}", "2".to_string())];
    assert_eq!(fill("{a}-{b}-{c}", &pairs), "2-2-{c}");
    let fractions = Fractions {
        registrations_per_hour: "3".to_string(),
        probation_interval_secs: "300".to_string(),
        post_interval_secs: "10".to_string(),
        post_burst: "5".to_string(),
    };
    let text = help(&Config::default(), &fractions);
    assert_ne!(text, HELP);
    for part in [
        "3 per hour",
        "1 to 1024 bytes",
        "within 300",
        "newest 10 messages",
        "up to\n  100.",
        "up to 25 seconds",
        "hold 4 waits",
        "first 3600 seconds",
        "once every 300 seconds",
        "may create 1 topic",
        "once every 10 seconds",
        "of 5, and may create 20 topics",
    ] {
        assert!(text.contains(part), "{part}");
    }
}

// -------------------------------------------------------------- identities

#[test]
fn names_and_passphrases_have_their_forms() {
    for name in ["a", "scout-7", "A_z-09", &"x".repeat(32)] {
        assert!(valid_name(name), "{name}");
    }
    for name in ["", "has space", "é", "a.b", &"x".repeat(33)] {
        assert!(!valid_name(name), "{name}");
    }
    assert!(valid_pass(&"x".repeat(8)) && valid_pass(&"x".repeat(128)));
    assert!(!valid_pass(&"x".repeat(7)) && !valid_pass(&"x".repeat(129)));
    assert!(valid_pass("éééé") && !valid_pass("ééé"));
}

#[test]
fn only_the_right_passphrase_opens() {
    let alice = identity(5, "alice", "passphrase");
    assert!(alice.accepts("passphrase") && !alice.accepts("Passphrase"));
    assert_eq!(let_in(Some(alice.clone()), "passphrase").unwrap().id, 5);
    for (found, pass) in [(Some(alice), "wrong-pass"), (None, "passphrase")] {
        assert_eq!(reason(let_in(found, pass)), "unknown name or wrong pass; register first");
    }
}

#[test]
fn changes_to_an_identity_leave_the_rest() {
    let alice = identity(5, "alice", "passphrase");
    let grown = alice.add_topic().add_topic();
    assert_eq!((alice.topics, grown.topics), (0, 2));
    let drawn = grown.set_bucket(Bucket::full(number(4.0), 3));
    assert_eq!((drawn.id, drawn.name.as_str(), drawn.since, drawn.topics), (5, "alice", 100, 2));
    assert_eq!(drawn.bucket, Bucket { tokens: number(4.0), last: 3 });
    assert!(drawn.accepts("passphrase"));
}

#[test]
fn tiers_go_by_age() {
    let config = Config::default();
    let young = tier_at(&config, 100, 3699);
    assert_eq!((young.name, young.topics), ("probation", 1));
    assert_eq!((young.interval, young.burst), (number(300.0), number(1.0)));
    let old = tier_at(&config, 100, 3700);
    assert_eq!((old.name, old.topics), ("established", 20));
    assert_eq!((old.interval, old.burst), (number(10.0), number(5.0)));
    assert_eq!(tier_at(&config, 100, 50).name, "probation");
    let none = Config { probation_secs: 0, ..Config::default() };
    assert_eq!(tier_at(&none, 100, 50).name, "established");
}

// ------------------------------------------------------------------ topics

#[test]
fn a_topic_keeps_its_latest_messages() {
    let topic = topic_with(3, 5);
    assert_eq!(topic.seq, 5);
    let kept: Vec<Option<u64>> = topic.ring.iter().map(|m| m.seq).collect();
    assert_eq!(kept, [Some(3), Some(4), Some(5)]);
    let (same, flash) =
        topic.publish(3, true, 9, "bob".to_string(), 8, "flash".to_string());
    assert_eq!((flash.seq, flash.ts, flash.sender_since), (None, 9, 8));
    assert_eq!((same.seq, same.ring.len()), (5, 3));
    assert_eq!(topic.set_bucket(Bucket::full(number(2.0), 4)).bucket.last, 4);
}

#[test]
fn readers_are_shown_what_they_ask_for() {
    let config = Config { default_n: 2, max_n: 3, ..Config::default() };
    let topic = topic_with(3, 5);
    let show = |params: Params| {
        let (shown, gap) = items(&topic, &params, &config, 1_000);
        (seqs(&shown), gap)
    };
    assert_eq!(show(nothing()), (vec![Some(5), Some(4)], false));
    assert_eq!(show(Params { n: Some(0), ..nothing() }), (vec![], false));
    assert_eq!(
        show(Params { after: Some(0), n: Some(9), ..nothing() }),
        (vec![Some(3), Some(4), Some(5)], true)
    );
    assert_eq!(show(Params { after: Some(1), ..nothing() }), (vec![Some(3), Some(4)], true));
    assert_eq!(show(Params { after: Some(2), ..nothing() }), (vec![Some(3), Some(4)], false));
    assert_eq!(show(Params { after: Some(5), ..nothing() }), (vec![], false));
    assert_eq!(show(Params { after: Some(u64::MAX), ..nothing() }), (vec![], false));
    // The senders of messages 3, 4 and 5 registered at 300, 400 and 500.
    assert_eq!(show(Params { min_age: Some(600), ..nothing() }), (vec![Some(4), Some(3)], false));
    assert_eq!(
        show(Params { after: Some(0), min_age: Some(601), ..nothing() }),
        (vec![Some(3)], true)
    );
    assert_eq!(limit(&Params { n: Some(99), ..nothing() }, &config), 3);
}

#[test]
fn age_is_counted_from_registration() {
    let topic = topic_with(3, 1);
    let message = &topic.ring[0];
    assert!(!young(message, None, 0));
    assert!(!young(message, Some(0), 0));
    assert!(young(message, Some(1), 50));
    assert!(young(message, Some(10), 109));
    assert!(!young(message, Some(10), 110));
}

#[test]
fn live_messages_are_filtered_and_counted() {
    let config = Config { default_n: 2, max_n: 3, ..Config::default() };
    let topic = topic_with(4, 4);
    let arrived: Vec<Arc<Message>> = topic.ring.iter().cloned().collect();
    let all = live_items(&arrived, &nothing(), &config, 1_000);
    assert_eq!(seqs(&all), [Some(1), Some(2)]);
    let old = Params { min_age: Some(750), n: Some(9), ..nothing() };
    assert_eq!(seqs(&live_items(&arrived, &old, &config, 1_000)), [Some(1), Some(2)]);
    assert_eq!(seqs(&live_items(&arrived, &old, &config, 1_200)).len(), 3);
}

#[test]
fn pages_lead_on_from_the_latest_message() {
    let topic = topic_with(4, 4);
    let newest: Vec<Arc<Message>> = topic.ring.iter().rev().cloned().collect();
    assert_eq!(cursor(&newest, Some(1)), 4);
    assert_eq!(cursor(&Vec::new(), Some(7)), 7);
    assert_eq!(cursor(&Vec::new(), None), 0);
    let (_, flash) = topic.publish(4, true, 0, "bob".to_string(), 0, "x".to_string());
    assert_eq!(cursor(&vec![flash.clone()], Some(3)), 3);
    assert_eq!(cursor(&vec![topic.ring[1].clone(), flash], Some(0)), 2);
    let plain = page("t", newest, true, &nothing(), 12);
    assert_eq!((plain.next.as_str(), plain.gap, plain.server_time), ("/?topic=t&after=4", true, 12));
    let waiting = Params { wait: Some(9), ..nothing() };
    let again = page("t", Vec::new(), false, &waiting, 12);
    assert_eq!(again.next, "/?topic=t&after=0&wait=9&name=&pass=");
}

// ----------------------------------------------------------------- answers

#[test]
fn a_post_is_answered_with_its_number() {
    let reply = PostReply::new(Some(Some(3)), "t", 4, 25, "alice", "pass word", 12);
    assert_eq!((reply.ok, reply.duplicate, reply.server_time), (true, false, 12));
    assert_eq!(reply.seq, Some(Some(3)));
    assert_eq!(reply.next.read, "/?topic=t&after=4");
    assert_eq!(reply.next.wait, "/?topic=t&after=4&wait=25&name=alice&pass=pass+word");
    assert!(PostReply::new(None, "t", 4, 25, "alice", "x", 12).duplicate);
}

#[test]
fn a_registration_is_answered_with_its_limits() {
    let alice = identity(5, "alice", "passphrase");
    let reply = RegisterReply::new(&Config::default(), &alice, true, "passphrase", 4_000);
    assert!(reply.ok && reply.existing);
    assert_eq!((reply.since, reply.server_time, reply.tier), (100, 4_000, "established"));
    assert_eq!((reply.limits.topics, reply.limits.topics_created), (20, 0));
    assert_eq!(reply.limits.post_interval_secs, number(10.0));
    assert_eq!(reply.limits.post_burst, number(5.0));
}

// ------------------------------------------------------------------- steps

#[test]
fn content_is_screened() {
    let config = Config { max_content_bytes: 4, ..Config::default() };
    assert_eq!(reason(screen(&config, "")), "content is required");
    assert_eq!(reason(screen(&config, "abcd")), "none");
    assert_eq!(reason(screen(&config, "éé")), "none");
    assert_eq!(reason(screen(&config, "ééx")), "content exceeds 4 bytes");
}

#[test]
fn a_post_opens_with_a_draw_on_the_identity() {
    let config = Config::default();
    let alice = identity(5, "alice", "passphrase");
    let params = named("alice", "passphrase");
    let open = |content: &str, repeated: bool, found: Option<Arc<Topic>>, active: u64| {
        open_post(
            &config,
            Ok(alice.clone()),
            "t",
            &params,
            content.to_string(),
            Moment { now: 4_000, clock: 9 },
            vec![1, 2],
            repeated,
            found,
            active,
        )
    };
    match open("hi", false, None, 0) {
        PostStep::Draw(draw, posting) => {
            assert_eq!((draw.bucket, draw.burst, draw.at), (bucket(), number(5.0), 9));
            assert_eq!(
                draw.rate,
                Rate::Shared { interval: number(10.0), budget: number(50.0), sharers: 1 }
            );
            assert_eq!((posting.content.as_str(), posting.pass.as_str()), ("hi", "passphrase"));
            assert_eq!(posting.key, [1, 2]);
            assert!(matches!(posting.stage, Stage::Identity));
        }
        _ => panic!("no draw"),
    }
    match open("hi", false, None, 8) {
        PostStep::Draw(draw, _) => assert_eq!(
            draw.rate,
            Rate::Shared { interval: number(10.0), budget: number(50.0), sharers: 8 }
        ),
        _ => panic!("no draw"),
    }
    let known: [(Option<Arc<Topic>>, &str); 2] = [
        (None, "/?topic=t&after=0"),
        (Some(Arc::new(topic_with(3, 5))), "/?topic=t&after=5"),
    ];
    for (found, link) in known {
        match open("hi", true, found, 0) {
            PostStep::Repeated(reply) => assert_eq!(reply.next.read, link),
            _ => panic!("not repeated"),
        }
    }
    assert!(matches!(open("", true, None, 0), PostStep::Refused(Reject::Bad(_))));
    let refused = open_post(
        &config,
        Err(Reject::Credentials),
        "t",
        &params,
        String::new(),
        AT,
        Vec::new(),
        true,
        None,
        0,
    );
    assert!(matches!(refused, PostStep::Refused(Reject::Credentials)));
}

#[test]
fn registrations_ask_for_a_name_and_a_passphrase() {
    let pair = wanted(named("alice", "passphrase")).unwrap();
    assert_eq!(pair, ("alice".to_string(), "passphrase".to_string()));
    assert_eq!(reason(wanted(nothing())), "name and pass are required");
    assert_eq!(
        reason(wanted(named("no way", "short"))),
        "name must be 1 to 32 characters from a-z A-Z 0-9 _ -"
    );
    assert_eq!(reason(wanted(named("alice", "short"))), "pass must be 8 to 128 bytes");
}

fn enrolled(app: &mut App, name: &str) -> Arc<Identity> {
    match app.register(HOME, named(name, "passphrase"), AT) {
        RegisterStep::Draw(_, registering) => {
            app.enroll(registering, YIELDS).unwrap();
        }
        _ => panic!("no draw"),
    }
    app.authenticate(&Some(name.to_string()), &Some("passphrase".to_string())).unwrap()
}

#[test]
fn identities_get_numbers_and_salts_of_their_own() {
    let mut app = App::new(Config::default(), AT);
    let alice = enrolled(&mut app, "alice");
    let bob = enrolled(&mut app, "bob");
    assert_eq!((alice.id, bob.id), (0, 1));
    assert_ne!(alice.salt, bob.salt);
    assert_eq!(alice.hash, hash(alice.salt.bytes(), "passphrase"));
    assert_ne!(alice.hash, bob.hash);
    assert_eq!(alice.bucket, Bucket { tokens: number(5.0), last: 9 });
    assert_eq!((alice.since, alice.topics), (1_000, 0));
    assert_eq!(app.tier(&alice, 1_000).name, "probation");
}

#[test]
fn a_pair_that_was_registered_meanwhile_is_recognised() {
    let mut app = App::new(Config::default(), AT);
    let late = match app.register(HOME, named("alice", "passphrase"), AT) {
        RegisterStep::Draw(draw, registering) => {
            assert_eq!(draw.rate, Rate::PerHour(number(3.0)));
            assert_eq!((draw.burst, draw.at), (number(3.0), 9));
            assert_eq!(draw.bucket, Bucket { tokens: number(3.0), last: 9 });
            registering
        }
        _ => panic!("no draw"),
    };
    let alice = enrolled(&mut app, "alice");
    let reply = app.enroll(late, YIELDS).unwrap();
    assert!(reply.existing);
    assert_eq!((reply.since, reply.name.as_str()), (alice.since, "alice"));
    let still = app.authenticate(&Some("alice".to_string()), &Some("passphrase".to_string()));
    assert_eq!(still.unwrap().id, alice.id);
}

#[test]
fn a_name_that_someone_else_took_meanwhile_is_taken() {
    let mut app = App::new(Config::default(), AT);
    let late = match app.register(HOME, named("alice", "another-pass"), AT) {
        RegisterStep::Draw(_, registering) => registering,
        _ => panic!("no draw"),
    };
    enrolled(&mut app, "alice");
    let result = app.enroll(late, YIELDS);
    assert_eq!(reason(result), "name is taken; choose another or supply its pass");
}

#[test]
fn a_refused_registration_leaves_nobody() {
    let mut app = App::new(Config::default(), AT);
    match app.register(HOME, named("alice", "passphrase"), AT) {
        RegisterStep::Draw(_, registering) => {
            let result = app.enroll(registering, EMPTY);
            assert_eq!(reason(result), "registration rate limit; retry in 42s");
        }
        _ => panic!("no draw"),
    }
    let admission = app.authenticate(&Some("alice".to_string()), &Some("passphrase".to_string()));
    assert!(matches!(admission, Err(Reject::Credentials)));
    // The bucket stands as it was left.
    match app.register(HOME, named("alice", "passphrase"), AT) {
        RegisterStep::Draw(draw, _) => {
            assert_eq!(draw.bucket, Bucket { tokens: number(0.0), last: 9 });
        }
        _ => panic!("no draw"),
    }
}

#[test]
fn a_topic_that_was_found_is_joined() {
    let mut app = App::new(Config::default(), AT);
    let alice = enrolled(&mut app, "alice");
    let made = app.topic_for(&alice, "mine", None, AT).unwrap();
    assert_eq!((made.seq, made.ring.len()), (0, 0));
    assert_eq!(made.bucket, Bucket { tokens: number(10.0), last: 9 });
    let alice = app
        .authenticate(&Some("alice".to_string()), &Some("passphrase".to_string()))
        .unwrap();
    assert_eq!(alice.topics, 1);
    assert!(matches!(app.topic_for(&alice, "more", None, AT), Err(Reject::Topics(1, 3600))));
    let again = app.topic_for(&alice, "mine", Some(made.clone()), AT).unwrap();
    assert!(Arc::ptr_eq(&again, &made));
    let old = Moment { now: 9_000, clock: 9 };
    assert!(app.topic_for(&alice, "more", None, old).is_ok());
}

#[test]
fn a_post_draws_three_times() {
    let mut app = App::new(Config::default(), AT);
    enrolled(&mut app, "alice");
    let params = named("alice", "passphrase");
    let posting = match app.post("t", &params, "hi".to_string(), AT) {
        PostStep::Draw(_, posting) => posting,
        _ => panic!("no first draw"),
    };
    let posting = match app.resume(posting, YIELDS) {
        PostStep::Draw(draw, posting) => {
            assert_eq!(draw.rate, Rate::PerSecond(number(50.0)));
            assert_eq!((draw.bucket.tokens, draw.burst), (number(50.0), number(50.0)));
            posting
        }
        _ => panic!("no second draw"),
    };
    let posting = match app.resume(posting, YIELDS) {
        PostStep::Draw(draw, posting) => {
            assert_eq!(draw.rate, Rate::Every(number(2.0)));
            assert_eq!((draw.bucket.tokens, draw.burst), (number(10.0), number(10.0)));
            posting
        }
        _ => panic!("no third draw"),
    };
    assert!(posting.can_number());
    match app.resume(posting, YIELDS) {
        PostStep::Posted(reply, delivery) => {
            assert_eq!(reply.seq, Some(Some(1)));
            let message = delivery.message();
            assert_eq!((message.content.as_str(), message.sender.as_str()), ("hi", "alice"));
            assert_eq!((message.ts, message.sender_since), (1_000, 1_000));
        }
        _ => panic!("not posted"),
    }
    assert!(matches!(
        app.post("t", &params, "hi".to_string(), AT),
        PostStep::Repeated(_)
    ));
}

#[test]
fn each_bucket_can_turn_a_post_down() {
    let expected: [&str; 3] = ["identity", "global", "topic"];
    for stop in 0..3 {
        let mut app = App::new(Config::default(), AT);
        enrolled(&mut app, "alice");
        let params = named("alice", "passphrase");
        let mut step = app.post("t", &params, "hi".to_string(), AT);
        for _ in 0..stop {
            step = match step {
                PostStep::Draw(_, posting) => app.resume(posting, YIELDS),
                _ => panic!("no draw"),
            };
        }
        let step = match step {
            PostStep::Draw(_, posting) => app.resume(posting, EMPTY),
            _ => panic!("no draw"),
        };
        match step {
            PostStep::Refused(Reject::Limited(scope, 42)) => assert_eq!(scope, expected[stop]),
            _ => panic!("not refused"),
        }
        assert!(app.read("t", &nothing(), 1_000).items.is_empty());
    }
}

#[test]
fn waits_block_and_are_heard() {
    let mut app = App::new(Config { max_waiters: 1, ..Config::default() }, AT);
    let alice = enrolled(&mut app, "alice");
    let params = Params { after: Some(0), wait: Some(60), ..named("alice", "passphrase") };
    let mut waiting = match app.wait("t", &params, 60, AT) {
        WaitStep::Block(waiting) => waiting,
        _ => panic!("not blocked"),
    };
    assert_eq!((waiting.id, waiting.secs, waiting.gap), (alice.id, 25, false));
    assert!(matches!(app.wait("t", &params, 1, AT), WaitStep::Refused(Reject::Waiters(1, 25))));
    assert!(waiting.listening.rx.try_recv().is_err());
    let mut step = app.post("t", &params, "hi".to_string(), AT);
    let delivery = loop {
        step = match step {
            PostStep::Draw(_, posting) => app.resume(posting, YIELDS),
            PostStep::Posted(_, delivery) => break delivery,
            _ => panic!("not posted"),
        };
    };
    let arrived = vec![waiting.listening.rx.try_recv().unwrap()];
    assert!(Arc::ptr_eq(&arrived[0], delivery.message()));
    let page = app.wait_page("t", &params, &arrived, waiting.gap, 1_000);
    assert_eq!(seqs(&page.items), [Some(1)]);
    app.release(waiting.id);
    match app.wait("t", &params, 1, AT) {
        WaitStep::Ready(page) => assert_eq!(seqs(&page.items), [Some(1)]),
        _ => panic!("nothing to show"),
    }
    let later = Params { after: Some(1), ..params };
    assert!(matches!(app.wait("t", &later, 1, AT), WaitStep::Block(_)));
}

#[test]
fn releasing_what_is_not_held_changes_nothing() {
    let mut app = App::new(Config::default(), AT);
    app.release(3);
    let alice = enrolled(&mut app, "alice");
    app.release(alice.id);
    let params = Params { after: Some(0), ..named("alice", "passphrase") };
    for _ in 0..4 {
        assert!(matches!(app.wait("t", &params, 1, AT), WaitStep::Block(_)));
    }
    assert!(matches!(app.wait("t", &params, 1, AT), WaitStep::Refused(Reject::Waiters(4, 25))));
    app.release(alice.id);
    assert!(matches!(app.wait("t", &params, 1, AT), WaitStep::Block(_)));
}

#[test]
fn a_page_of_nothing_is_empty() {
    let mut app = App::new(Config::default(), AT);
    let params = Params { after: Some(7), ..nothing() };
    assert!(app.read("t", &params, 12).items.is_empty());
    let page = app.page_of(None, "t", &params, 12);
    assert!(page.items.is_empty() && !page.gap && page.ok);
    assert_eq!(page.next, "/?topic=t&after=7");
    let there = Arc::new(topic_with(100, 2));
    let page = app.page_of(Some(there), "t", &nothing(), 12);
    assert_eq!(seqs(&page.items), [Some(2), Some(1)]);
}

#[test]
fn topics_and_identities_are_counted() {
    let config = Config {
        probation_secs: 0,
        max_topics_per_identity: 5_000,
        ..Config::default()
    };
    let mut app = App::new(config, AT);
    assert_eq!((app.topic_count(), app.identity_count()), (0, 0));
    let mut alice = enrolled(&mut app, "alice");
    for i in 0..3_000 {
        app.topic_for(&alice, &format!("t{i}"), None, AT).unwrap();
        alice = app
            .authenticate(&Some("alice".to_string()), &Some("passphrase".to_string()))
            .unwrap();
    }
    assert!(0 < app.topic_count() && app.topic_count() <= 3_000);
    assert_eq!(app.identity_count(), 1);
}

#[test]
fn the_clock_counts_from_the_epoch() {
    let epoch = SystemTime::UNIX_EPOCH;
    assert_eq!(seconds_at(epoch + Duration::from_millis(5_999)), 5);
    assert_eq!(seconds_at(epoch - Duration::from_secs(9)), 0);
    let before: u64 = cbc::now();
    let after: u64 = cbc::now();
    assert!(1_500_000_000 < before && before <= after);
}
