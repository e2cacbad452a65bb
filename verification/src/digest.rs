//! Passphrases and repeated posts, known by their digests.

use sha2::{Digest, Sha256};
use vstd::prelude::*;
use vstd::utf8::{encode_scalar, encode_utf8};

verus! {

/// The SHA-256 digest of some bytes.
pub uninterp spec fn sha256(data: Seq<u8>) -> Seq<u8>;

/// `Sha256::digest` hashes its argument: the same bytes always give the same
/// thirty-two bytes.
#[verifier::external_body]
fn sha256_of(data: &[u8]) -> (r: [u8; 32])
    ensures
        r@ == sha256(data@),
{
    Sha256::digest(data).into()
}

/// Sixteen bytes that were drawn at random. Drawing is the only way to get
/// them.
#[derive(Clone, Copy, PartialEq, Eq, Debug)]
pub struct Salt {
    bytes: [u8; 16],
}

impl View for Salt {
    type V = Seq<u8>;

    closed spec fn view(&self) -> Seq<u8> {
        self.bytes@
    }
}

impl Salt {
    /// The bytes.
    pub fn bytes(&self) -> (r: &[u8; 16])
        ensures
            r@ == self@,
    {
        &self.bytes
    }
}

/// `rand::random` draws every byte at random. Nothing is claimed of them.
#[verifier::external_body]
pub(crate) fn random_salt() -> Salt {
    Salt { bytes: rand::random() }
}

/// What is stored in place of a passphrase.
pub open spec fn pass_digest(salt: Seq<u8>, pass: Seq<char>) -> Seq<u8> {
    sha256(salt + encode_utf8(pass))
}

/// A byte that no UTF-8 encoding holds, and that parts texts without
/// ambiguity.
pub const PART: u8 = 0xff;

/// A post in bytes: who sent what to which topic.
pub open spec fn post_bytes(name: Seq<char>, topic: Seq<char>, content: Seq<char>) -> Seq<u8> {
    encode_utf8(name).push(PART) + (encode_utf8(topic).push(PART) + encode_utf8(content))
}

/// What a post is recognised by.
pub open spec fn post_digest(name: Seq<char>, topic: Seq<char>, content: Seq<char>) -> Seq<u8> {
    sha256(post_bytes(name, topic, content))
}

/// Appends some bytes.
pub(crate) fn extend(data: &mut Vec<u8>, more: &[u8])
    ensures
        final(data)@ == old(data)@ + more@,
{
    data.extend_from_slice(more);
    assert(data@ =~= old(data)@ + more@);
}

/// Hashes a passphrase with its salt in front.
pub fn hash(salt: &[u8; 16], pass: &str) -> (r: [u8; 32])
    ensures
        r@ == pass_digest(salt@, pass@),
{
    let mut data: Vec<u8> = Vec::new();
    extend(&mut data, salt.as_slice());
    extend(&mut data, pass.as_bytes());
    assert(data@ == salt@ + encode_utf8(pass@));
    sha256_of(data.as_slice())
}

/// Hashes a post: the sender, the topic and the content, parted by a byte
/// that none of them holds.
pub fn post_key(name: &str, topic: &str, content: &str) -> (r: Vec<u8>)
    ensures
        r@ == post_digest(name@, topic@, content@),
{
    let mut data: Vec<u8> = Vec::new();
    extend(&mut data, name.as_bytes());
    data.push(PART);
    extend(&mut data, topic.as_bytes());
    data.push(PART);
    extend(&mut data, content.as_bytes());
    assert(data@ =~= post_bytes(name@, topic@, content@));
    let digest = sha256_of(data.as_slice());
    let mut r: Vec<u8> = Vec::new();
    extend(&mut r, digest.as_slice());
    assert(r@ =~= digest@);
    r
}

/// The UTF-8 encoding of a string.
pub fn bytes_of(s: &str) -> (r: Vec<u8>)
    ensures
        r@ == encode_utf8(s@),
{
    let mut r: Vec<u8> = Vec::new();
    extend(&mut r, s.as_bytes());
    assert(r@ =~= encode_utf8(s@));
    r
}

/// Whether two runs of bytes are the same.
pub fn same_bytes(a: &Vec<u8>, b: &Vec<u8>) -> (r: bool)
    ensures
        r == (a@ == b@),
{
    if a.len() != b.len() {
        return false;
    }
    let mut i: usize = 0;
    while i < a.len()
        invariant
            i <= a.len() == b.len(),
            forall|j: int| 0 <= j < i ==> a@[j] == b@[j],
        decreases a.len() - i,
    {
        if a[i] != b[i] {
            return false;
        }
        i = i + 1;
    }
    assert(a@ =~= b@);
    true
}

/// Whether two digests agree in every byte.
pub fn same_digest(a: &[u8; 32], b: &[u8; 32]) -> (r: bool)
    ensures
        r == (a@ == b@),
{
    let mut i: usize = 0;
    while i < 32
        invariant
            i <= 32,
            forall|j: int| 0 <= j < i ==> a@[j] == b@[j],
        decreases 32 - i,
    {
        if a[i] != b[i] {
            return false;
        }
        i = i + 1;
    }
    assert(a@ =~= b@);
    true
}

/// The encoding of a character does not hold the parting byte.
proof fn lemma_scalar_free(v: u32)
    ensures
        !encode_scalar(v).contains(PART),
{
    assert((v & 0x7f) as u8 != 0xffu8) by (bit_vector);
    assert(0xC0u8 | ((v >> 6) & 0x1F) as u8 != 0xffu8) by (bit_vector);
    assert(0xE0u8 | ((v >> 12) & 0x0F) as u8 != 0xffu8) by (bit_vector);
    assert(0xF0u8 | ((v >> 18) & 0x7) as u8 != 0xffu8) by (bit_vector);
    assert(0x80u8 | (v & 0x3F) as u8 != 0xffu8) by (bit_vector);
    assert(0x80u8 | ((v >> 6) & 0x3F) as u8 != 0xffu8) by (bit_vector);
    assert(0x80u8 | ((v >> 12) & 0x3F) as u8 != 0xffu8) by (bit_vector);
}

/// No text holds the parting byte.
proof fn lemma_text_free(s: Seq<char>)
    ensures
        !encode_utf8(s).contains(PART),
    decreases s.len(),
{
    if s.len() > 0 {
        let head = encode_scalar(s[0] as u32);
        let tail = encode_utf8(s.drop_first());
        lemma_scalar_free(s[0] as u32);
        lemma_text_free(s.drop_first());
        assert forall|i: int| 0 <= i < (head + tail).len() implies (head + tail)[i] != PART by {
            if i < head.len() {
                assert(head.contains((head + tail)[i]));
            } else {
                assert(tail.contains((head + tail)[i]));
            }
        }
    }
}

/// What stands before the first parting byte can be told from what follows.
proof fn lemma_parted(a: Seq<u8>, b: Seq<u8>, c: Seq<u8>, d: Seq<u8>)
    requires
        !a.contains(PART),
        !c.contains(PART),
        a.push(PART) + b == c.push(PART) + d,
    ensures
        a == c,
        b == d,
{
    let whole = a.push(PART) + b;
    let other = c.push(PART) + d;
    assert(whole[a.len() as int] == PART);
    assert(other[c.len() as int] == PART);
    if a.len() < c.len() {
        assert(c[a.len() as int] == other[a.len() as int]);
        assert(c.contains(PART));
    }
    if c.len() < a.len() {
        assert(a[c.len() as int] == whole[c.len() as int]);
        assert(a.contains(PART));
    }
    assert forall|i: int| 0 <= i < a.len() implies a[i] == c[i] by {
        assert(whole[i] == other[i]);
    }
    assert(a =~= c);
    assert(whole.len() == other.len());
    assert forall|i: int| 0 <= i < b.len() implies b[i] == d[i] by {
        assert(b[i] == whole[a.len() + 1 + i]);
        assert(d[i] == other[c.len() + 1 + i]);
    }
    assert(b =~= d);
}

/// Posts that differ in the sender, the topic or the content differ in their
/// bytes, whatever characters these hold.
pub proof fn law_posts_are_told_apart(
    name: Seq<char>,
    topic: Seq<char>,
    content: Seq<char>,
    other_name: Seq<char>,
    other_topic: Seq<char>,
    other_content: Seq<char>,
)
    requires
        post_bytes(name, topic, content) == post_bytes(other_name, other_topic, other_content),
    ensures
        name == other_name,
        topic == other_topic,
        content == other_content,
{
    broadcast use vstd::utf8::encode_utf8_decode_utf8;

    lemma_text_free(name);
    lemma_text_free(other_name);
    lemma_text_free(topic);
    lemma_text_free(other_topic);
    lemma_parted(
        encode_utf8(name),
        encode_utf8(topic).push(PART) + encode_utf8(content),
        encode_utf8(other_name),
        encode_utf8(other_topic).push(PART) + encode_utf8(other_content),
    );
    lemma_parted(
        encode_utf8(topic),
        encode_utf8(content),
        encode_utf8(other_topic),
        encode_utf8(other_content),
    );
    assert(vstd::utf8::decode_utf8(encode_utf8(name)) == other_name);
    assert(vstd::utf8::decode_utf8(encode_utf8(topic)) == other_topic);
    assert(vstd::utf8::decode_utf8(encode_utf8(content)) == other_content);
}

/// What a post is recognised by is the digest of its bytes, all of them. Posts
/// that differ in the sender, the topic or the content are recognised by
/// digests of different bytes.
pub proof fn law_posts_have_their_own_digests(
    name: Seq<char>,
    topic: Seq<char>,
    content: Seq<char>,
    other_name: Seq<char>,
    other_topic: Seq<char>,
    other_content: Seq<char>,
)
    ensures
        exists|bytes: Seq<u8>, other: Seq<u8>|
            {
                &&& post_digest(name, topic, content) == #[trigger] sha256(bytes)
                &&& post_digest(other_name, other_topic, other_content) == #[trigger] sha256(other)
                &&& bytes == post_bytes(name, topic, content)
                &&& other == post_bytes(other_name, other_topic, other_content)
                &&& name != other_name || topic != other_topic || content != other_content
                    ==> bytes != other
            },
{
    let bytes = post_bytes(name, topic, content);
    let other = post_bytes(other_name, other_topic, other_content);
    if bytes == other {
        law_posts_are_told_apart(
            name,
            topic,
            content,
            other_name,
            other_topic,
            other_content,
        );
    }
    assert(post_digest(name, topic, content) == sha256(bytes));
    assert(post_digest(other_name, other_topic, other_content) == sha256(other));
}

/// The bytes of a post hold the content whole, at the end, and the sender
/// whole, at the start.
pub proof fn law_post_bytes_hold_all(name: Seq<char>, topic: Seq<char>, content: Seq<char>)
    ensures
        post_bytes(name, topic, content).len() >= encode_utf8(name).len() + encode_utf8(topic).len()
            + encode_utf8(content).len(),
        encode_utf8(name).is_prefix_of(post_bytes(name, topic, content)),
        encode_utf8(content).is_suffix_of(post_bytes(name, topic, content)),
{
    let bytes = post_bytes(name, topic, content);
    let head = encode_utf8(name);
    let tail = encode_utf8(content);
    assert(bytes.subrange(0, head.len() as int) =~= head);
    assert(bytes.subrange(bytes.len() - tail.len(), bytes.len() as int) =~= tail);
}

/// What is stored in place of a passphrase is the digest of bytes that start
/// with the salt and end with the whole passphrase: under one salt, different
/// passphrases are stored as digests of different bytes.
pub proof fn law_passphrases_are_told_apart(salt: Seq<u8>, pass: Seq<char>, other: Seq<char>)
    ensures
        exists|bytes: Seq<u8>, others: Seq<u8>|
            {
                &&& pass_digest(salt, pass) == #[trigger] sha256(bytes)
                &&& pass_digest(salt, other) == #[trigger] sha256(others)
                &&& bytes == salt + encode_utf8(pass)
                &&& others == salt + encode_utf8(other)
                &&& pass != other ==> bytes != others
            },
{
    broadcast use vstd::utf8::encode_utf8_decode_utf8;

    let bytes = salt + encode_utf8(pass);
    let others = salt + encode_utf8(other);
    if bytes == others {
        assert(encode_utf8(pass) =~= bytes.skip(salt.len() as int));
        assert(encode_utf8(other) =~= others.skip(salt.len() as int));
        assert(vstd::utf8::decode_utf8(encode_utf8(pass)) == other);
    }
    assert(pass_digest(salt, pass) == sha256(bytes));
    assert(pass_digest(salt, other) == sha256(others));
}

/// Different salts of one length are never hashed to the same bytes.
pub proof fn law_salts_are_told_apart(
    salt: Seq<u8>,
    other: Seq<u8>,
    pass: Seq<char>,
    other_pass: Seq<char>,
)
    requires
        salt.len() == other.len(),
        salt != other,
    ensures
        pass_digest(salt, pass) == sha256(salt + encode_utf8(pass)),
        pass_digest(other, other_pass) == sha256(other + encode_utf8(other_pass)),
        salt + encode_utf8(pass) != other + encode_utf8(other_pass),
{
    let bytes = salt + encode_utf8(pass);
    let others = other + encode_utf8(other_pass);
    if bytes == others {
        assert(salt =~= bytes.take(salt.len() as int));
        assert(other =~= others.take(salt.len() as int));
    }
}

} // verus!
