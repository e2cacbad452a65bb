//! Links: `application/x-www-form-urlencoded` query strings.

use crate::digest::extend;
use crate::text::{
    chars_of, decimal, join_with, lemma_split_first, lemma_split_join, lemma_split_some,
    lemma_split_whole, numeral, split, split_on, texts,
};
use vstd::prelude::*;
use vstd::utf8::{decode_utf8, encode_scalar, encode_utf8};

verus! {

/// The bytes that the encoding leaves as they are.
pub open spec fn form_unchanged(b: u8) -> bool {
    ||| b == 0x2a
    ||| b == 0x2d
    ||| b == 0x2e
    ||| 0x30 <= b <= 0x39
    ||| 0x41 <= b <= 0x5a
    ||| b == 0x5f
    ||| 0x61 <= b <= 0x7a
}

/// The upper-case hexadecimal digit for `d`, for `d` below sixteen.
pub open spec fn hex_digit(d: u8) -> char {
    if d < 10 {
        (48 + d) as char
    } else {
        (55 + d) as char
    }
}

/// What the encoding writes for one byte.
pub open spec fn form_byte(b: u8) -> Seq<char> {
    if form_unchanged(b) {
        seq![b as char]
    } else if b == 0x20 {
        seq!['+']
    } else {
        seq!['%', hex_digit(b / 16), hex_digit(b % 16)]
    }
}

/// What the encoding writes for a run of bytes.
pub open spec fn form_bytes(bytes: Seq<u8>) -> Seq<char>
    decreases bytes.len(),
{
    if bytes.len() == 0 {
        Seq::empty()
    } else {
        form_byte(bytes[0]) + form_bytes(bytes.drop_first())
    }
}

/// What the encoding writes for one name or one value.
pub open spec fn form_text(s: Seq<char>) -> Seq<char> {
    form_bytes(encode_utf8(s))
}

/// What the encoding writes for one pair.
pub open spec fn form_pair(pair: (Seq<char>, Seq<char>)) -> Seq<char> {
    form_text(pair.0).push('=') + form_text(pair.1)
}

/// What the encoding writes for each of some pairs.
pub open spec fn form_pairs(pairs: Seq<(Seq<char>, Seq<char>)>) -> Seq<Seq<char>> {
    Seq::new(pairs.len(), |i: int| form_pair(pairs[i]))
}

/// The pairs in their order, joined by ampersands.
pub open spec fn form(pairs: Seq<(Seq<char>, Seq<char>)>) -> Seq<char> {
    join_with(form_pairs(pairs), '&')
}

/// The characters of each name and value.
pub open spec fn pair_texts(pairs: Seq<(&str, String)>) -> Seq<(Seq<char>, Seq<char>)> {
    Seq::new(pairs.len(), |i: int| (pairs[i].0@, pairs[i].1@))
}

/// `serde_urlencoded::to_string` on a list of pairs of strings. It writes
/// each name, an equals sign and the value, both encoded byte by byte, with
/// ampersands between the pairs. It fails only on values that are neither
/// strings nor numbers, of which there are none here.
#[verifier::external_body]
pub(crate) fn query(pairs: &Vec<(&str, String)>) -> (r: String)
    ensures
        r@ == form(pair_texts(pairs@)),
{
    serde_urlencoded::to_string(pairs).unwrap()
}

/// The two parameters that name a topic and a position in it.
pub open spec fn position_pairs(topic: Seq<char>, after: u64) -> Seq<(Seq<char>, Seq<char>)> {
    seq![("topic"@, topic), ("after"@, decimal(after as nat))]
}

/// The two parameters that carry credentials.
pub open spec fn credential_pairs(name: Seq<char>, pass: Seq<char>) -> Seq<(Seq<char>, Seq<char>)> {
    seq![("name"@, name), ("pass"@, pass)]
}

/// The query string with the given credentials.
pub fn credentials(name: &str, pass: &str) -> (r: String)
    ensures
        r@ == form(credential_pairs(name@, pass@)),
{
    let mut pairs: Vec<(&str, String)> = Vec::new();
    pairs.push(("name", name.to_owned()));
    pairs.push(("pass", pass.to_owned()));
    assert(pair_texts(pairs@) == credential_pairs(name@, pass@));
    query(&pairs)
}

/// The query string that reads a topic from a position on.
pub fn position(topic: &str, after: u64) -> (r: String)
    ensures
        r@ == form(position_pairs(topic@, after)),
{
    let mut pairs: Vec<(&str, String)> = Vec::new();
    pairs.push(("topic", topic.to_owned()));
    pairs.push(("after", numeral(after)));
    assert(pair_texts(pairs@) == position_pairs(topic@, after));
    query(&pairs)
}

// ----------------------------------------------------------------- reading

/// The value of a hexadecimal digit.
pub open spec fn hex_value(c: char) -> Option<u8> {
    if '0' <= c <= '9' {
        Some((c as u8 - 48) as u8)
    } else if 'A' <= c <= 'F' {
        Some((c as u8 - 55) as u8)
    } else if 'a' <= c <= 'f' {
        Some((c as u8 - 87) as u8)
    } else {
        None
    }
}

/// Whether an escaped byte stands at the start: a percent sign and two
/// hexadecimal digits.
pub open spec fn escaped(s: Seq<char>) -> bool {
    &&& s.len() >= 3
    &&& s[0] == '%'
    &&& hex_value(s[1]) is Some
    &&& hex_value(s[2]) is Some
}

/// The bytes that an encoded name or value stands for: an escape for its
/// byte, a plus sign for a space, and everything else for itself.
pub open spec fn form_read(s: Seq<char>) -> Seq<u8>
    decreases s.len(),
{
    if s.len() == 0 {
        Seq::empty()
    } else if escaped(s) {
        seq![(hex_value(s[1])->0 * 16 + hex_value(s[2])->0) as u8] + form_read(s.skip(3))
    } else if s[0] == '+' {
        seq![0x20u8] + form_read(s.skip(1))
    } else {
        encode_scalar(s[0] as u32) + form_read(s.skip(1))
    }
}

/// The name in one part of a query string: what stands before the first
/// equals sign.
pub open spec fn key_of(part: Seq<char>) -> Seq<char> {
    split_on(part, '=')[0]
}

/// The value in one part of a query string: what stands behind the first
/// equals sign.
pub open spec fn value_of(part: Seq<char>) -> Seq<char> {
    if key_of(part).len() < part.len() {
        part.skip(key_of(part).len() as int + 1)
    } else {
        Seq::empty()
    }
}

/// The pairs that a query string stands for, one for each part.
pub open spec fn pairs_in(query: Seq<char>) -> Seq<(Seq<char>, Seq<char>)> {
    Seq::new(
        split_on(query, '&').len(),
        |i: int|
            (
                decode_utf8(form_read(key_of(split_on(query, '&')[i]))),
                decode_utf8(form_read(value_of(split_on(query, '&')[i]))),
            ),
    )
}

/// The value of a hexadecimal digit.
fn hex(c: char) -> (r: Option<u8>)
    ensures
        r == hex_value(c),
{
    if '0' <= c && c <= '9' {
        Some(c as u8 - 48)
    } else if 'A' <= c && c <= 'F' {
        Some(c as u8 - 55)
    } else if 'a' <= c && c <= 'f' {
        Some(c as u8 - 87)
    } else {
        None
    }
}

/// The byte that is escaped at a position, if one is.
fn escape_at(chars: &Vec<char>, i: usize) -> (r: Option<u8>)
    requires
        i < chars.len(),
    ensures
        r is Some <==> escaped(chars@.skip(i as int)),
        r matches Some(b) ==> b == (hex_value(chars@[i + 1])->0 * 16 + hex_value(
            chars@[i + 2],
        )->0) as u8,
{
    if chars[i] != '%' || chars.len() - i < 3 {
        return None;
    }
    match (hex(chars[i + 1]), hex(chars[i + 2])) {
        (Some(high), Some(low)) => Some(high * 16 + low),
        _ => None,
    }
}

/// Reads an encoded name or value.
pub fn read_form(s: &str) -> (r: Vec<u8>)
    ensures
        r@ == form_read(s@),
{
    let chars = chars_of(s);
    let mut r: Vec<u8> = Vec::new();
    let mut i: usize = 0;
    assert(chars@.skip(0) == chars@);
    while i < chars.len()
        invariant
            i <= chars.len(),
            r@ + form_read(chars@.skip(i as int)) == form_read(chars@),
        decreases chars.len() - i,
    {
        let ghost rest = chars@.skip(i as int);
        let ghost before = r@;
        let c = chars[i];
        match escape_at(&chars, i) {
            Some(b) => {
                assert(rest.skip(3) == chars@.skip(i + 3));
                r.push(b);
                i = i + 3;
                assert(r@ =~= before + seq![b]);
            },
            None => {
                assert(rest.skip(1) == chars@.skip(i + 1));
                if c == '+' {
                    r.push(0x20);
                    assert(r@ =~= before + seq![0x20u8]);
                } else {
                    let mut one = String::new();
                    one.push(c);
                    proof {
                        reveal_with_fuel(encode_utf8, 2);
                        assert(one@ =~= seq![c]);
                        assert(one@.drop_first() =~= Seq::<char>::empty());
                        assert(encode_utf8(one@) =~= encode_scalar(c as u32));
                    }
                    extend(&mut r, one.as_str().as_bytes());
                }
                i = i + 1;
            },
        }
        assert(r@ + form_read(chars@.skip(i as int)) =~= before + form_read(rest));
    }
    assert(chars@.skip(i as int) =~= Seq::<char>::empty());
    assert(r@ =~= form_read(chars@));
    r
}

/// The name in one part of a query string, read, if the part has a value.
pub fn key_read(part: &str) -> (r: Option<Vec<u8>>)
    ensures
        match r {
            Some(key) => key_of(part@).len() < part@.len() && key@ == form_read(key_of(part@)),
            None => key_of(part@).len() >= part@.len(),
        },
{
    let pieces = split(part, '=');
    assert(split_on(part@, '=').len() > 0) by {
        lemma_split_some(part@, '=');
    }
    assert(texts(pieces@)[0] == pieces@[0]@);
    if chars_of(pieces[0].as_str()).len() < chars_of(part).len() {
        Some(read_form(pieces[0].as_str()))
    } else {
        None
    }
}

// -------------------------------------------------------------------- laws

/// The characters that the encoding writes.
pub open spec fn form_char(c: char) -> bool {
    plain_char(c) || c == '+' || c == '%'
}

/// The characters that stand for themselves in a link.
pub open spec fn plain_char(c: char) -> bool {
    ||| '0' <= c <= '9'
    ||| 'A' <= c <= 'Z'
    ||| 'a' <= c <= 'z'
    ||| c == '*'
    ||| c == '-'
    ||| c == '.'
    ||| c == '_'
}

/// A plain character is one byte, its own code.
proof fn lemma_plain_scalar(c: char)
    requires
        plain_char(c),
    ensures
        encode_scalar(c as u32) == seq![c as u8],
{
    let code = c as u32;
    assert(code < 128);
    assert((code & 0x7f) as u8 == code as u8) by (bit_vector)
        requires
            code < 128,
    ;
    assert(encode_scalar(code) =~= seq![c as u8]);
}

/// What is made of letters, digits and a few signs stands in a link as it is.
pub proof fn law_plain_text_is_unchanged(s: Seq<char>)
    requires
        forall|i: int| 0 <= i < s.len() ==> plain_char(#[trigger] s[i]),
    ensures
        form_text(s) == s,
    decreases s.len(),
{
    if s.len() > 0 {
        let rest = s.drop_first();
        assert forall|i: int| 0 <= i < rest.len() implies plain_char(#[trigger] rest[i]) by {
            assert(rest[i] == s[i + 1]);
        }
        law_plain_text_is_unchanged(rest);
        assert(plain_char(s[0]));
        lemma_plain_scalar(s[0]);
        let bytes = encode_utf8(s);
        assert(bytes == seq![s[0] as u8] + encode_utf8(rest));
        assert(bytes.drop_first() =~= encode_utf8(rest));
        assert(form_byte(bytes[0]) =~= seq![s[0]]);
        assert(seq![s[0]] + rest =~= s);
    } else {
        assert(s =~= Seq::empty());
    }
}

/// What the encoding writes for one byte is made of its characters.
proof fn lemma_form_byte_chars(b: u8)
    ensures
        forall|i: int| 0 <= i < form_byte(b).len() ==> form_char(#[trigger] form_byte(b)[i]),
{
}

/// What the encoding writes is made of its characters, so that it holds
/// neither an ampersand nor an equals sign.
proof fn lemma_form_chars(bytes: Seq<u8>)
    ensures
        forall|i: int| 0 <= i < form_bytes(bytes).len() ==> form_char(#[trigger] form_bytes(bytes)[i]),
    decreases bytes.len(),
{
    if bytes.len() > 0 {
        let head = form_byte(bytes[0]);
        let tail = form_bytes(bytes.drop_first());
        lemma_form_byte_chars(bytes[0]);
        lemma_form_chars(bytes.drop_first());
        assert forall|i: int| 0 <= i < form_bytes(bytes).len() implies form_char(
            #[trigger] form_bytes(bytes)[i],
        ) by {
            if i < head.len() {
                assert(form_char(head[i]));
            } else {
                assert(form_char(tail[i - head.len()]));
            }
        }
    }
}

/// Reading undoes the encoding of one byte.
proof fn lemma_read_byte(b: u8, rest: Seq<char>)
    ensures
        form_read(form_byte(b) + rest) == seq![b] + form_read(rest),
{
    let s = form_byte(b) + rest;
    if form_unchanged(b) {
        assert(s.skip(1) =~= rest);
        lemma_plain_scalar(b as char);
    } else if b == 0x20 {
        assert(s.skip(1) =~= rest);
    } else {
        assert(s.skip(3) =~= rest);
        let high = (b / 16) as u8;
        let low = (b % 16) as u8;
        assert(hex_value(hex_digit(high)) == Some(high));
        assert(hex_value(hex_digit(low)) == Some(low));
        assert(s[0] == '%' && s[1] == hex_digit(high) && s[2] == hex_digit(low));
        assert(high * 16 + low == b);
    }
}

/// Reading undoes the encoding of bytes.
pub proof fn law_bytes_come_back(bytes: Seq<u8>)
    ensures
        form_read(form_bytes(bytes)) == bytes,
    decreases bytes.len(),
{
    if bytes.len() > 0 {
        law_bytes_come_back(bytes.drop_first());
        lemma_read_byte(bytes[0], form_bytes(bytes.drop_first()));
        assert(seq![bytes[0]] + bytes.drop_first() =~= bytes);
    } else {
        assert(bytes =~= Seq::empty());
    }
}

/// A name or a value comes back from its encoding, whatever characters it
/// holds.
pub proof fn law_text_comes_back(s: Seq<char>)
    ensures
        decode_utf8(form_read(form_text(s))) == s,
{
    broadcast use vstd::utf8::encode_utf8_decode_utf8;

    law_bytes_come_back(encode_utf8(s));
}

/// A pair comes back from its part of a query string.
proof fn lemma_pair_read(pair: (Seq<char>, Seq<char>))
    ensures
        key_of(form_pair(pair)) == form_text(pair.0),
        value_of(form_pair(pair)) == form_text(pair.1),
        !form_pair(pair).contains('&'),
{
    let key = form_text(pair.0);
    let value = form_text(pair.1);
    let part = form_pair(pair);
    lemma_form_chars(encode_utf8(pair.0));
    lemma_form_chars(encode_utf8(pair.1));
    assert(!key.contains('='));
    lemma_split_first(key, value, '=');
    assert(part.skip(key.len() as int + 1) =~= value);
    assert forall|i: int| 0 <= i < part.len() implies part[i] != '&' by {
        if i < key.len() {
            assert(form_char(key[i]));
        } else if i > key.len() {
            assert(form_char(value[i - key.len() - 1]));
        }
    }
}

/// A query string stands for the pairs that it was made of, whatever
/// characters these hold.
pub proof fn law_pairs_come_back(pairs: Seq<(Seq<char>, Seq<char>)>)
    requires
        pairs.len() > 0,
    ensures
        pairs_in(form(pairs)) == pairs,
{
    let parts = form_pairs(pairs);
    assert forall|i: int| 0 <= i < parts.len() implies !(#[trigger] parts[i]).contains('&') by {
        lemma_pair_read(pairs[i]);
    }
    lemma_split_join(parts, '&');
    assert forall|i: int| 0 <= i < pairs.len() implies pairs_in(form(pairs))[i] == pairs[i] by {
        lemma_pair_read(pairs[i]);
        law_text_comes_back(pairs[i].0);
        law_text_comes_back(pairs[i].1);
        assert(parts[i] == form_pair(pairs[i]));
    }
    assert(pairs_in(form(pairs)) =~= pairs);
}

/// The query string of some pairs and more pairs is that of each with an
/// ampersand between.
pub proof fn lemma_form_joined(
    pairs: Seq<(Seq<char>, Seq<char>)>,
    more: Seq<(Seq<char>, Seq<char>)>,
)
    requires
        pairs.len() > 0,
        more.len() > 0,
    ensures
        form(pairs + more) == form(pairs).push('&') + form(more),
    decreases more.len(),
{
    let all = form_pairs(pairs + more);
    assert(all.drop_last() =~= form_pairs((pairs + more).drop_last()));
    assert((pairs + more).drop_last() =~= pairs + more.drop_last());
    assert(all.last() == form_pair(more.last()));
    if more.len() == 1 {
        assert(pairs + more.drop_last() =~= pairs);
        assert(form_pairs(more) =~= seq![form_pair(more[0])]);
    } else {
        lemma_form_joined(pairs, more.drop_last());
        assert(form_pairs(more).drop_last() =~= form_pairs(more.drop_last()));
        assert(form_pairs(more).last() == form_pair(more.last()));
        assert(form(pairs + more) =~= form(pairs).push('&') + form(more));
    }
}

/// A hexadecimal digit stands for its place among the sixteen, in either case
/// of letters.
pub proof fn law_hexadecimal_digits(c: char)
    ensures
        hex_value(c) matches Some(v) ==> v < 16 && (c == "0123456789abcdef"@[v as int] || c
            == "0123456789ABCDEF"@[v as int]),
        forall|v: int| 0 <= v < 16 && c == #[trigger] "0123456789abcdef"@[v] ==> hex_value(c) == Some(
            v as u8,
        ),
        forall|v: int| 0 <= v < 16 && c == #[trigger] "0123456789ABCDEF"@[v] ==> hex_value(c) == Some(
            v as u8,
        ),
{
    reveal_strlit("0123456789abcdef");
    reveal_strlit("0123456789ABCDEF");
}

/// An escape is read as its byte, a plus sign as a space, and any other plain
/// character as itself, one after the other.
pub proof fn law_reading_goes_left_to_right(high: u8, low: u8, c: char, rest: Seq<char>)
    requires
        high < 16,
        low < 16,
        plain_char(c),
    ensures
        form_read(
            seq!['%', "0123456789abcdef"@[high as int], "0123456789ABCDEF"@[low as int]] + rest,
        ) == seq![(16 * high + low) as u8] + form_read(rest),
        form_read(seq!['+'] + rest) == seq![0x20u8] + form_read(rest),
        form_read(seq![c] + rest) == seq![c as u8] + form_read(rest),
        form_read(Seq::empty()) == Seq::<u8>::empty(),
{
    let h = "0123456789abcdef"@[high as int];
    let l = "0123456789ABCDEF"@[low as int];
    let escape = seq!['%', h, l] + rest;
    law_hexadecimal_digits(h);
    law_hexadecimal_digits(l);
    assert(escape[0] == '%' && escape[1] == h && escape[2] == l);
    assert(escape.skip(3) =~= rest);
    assert((seq!['+'] + rest).skip(1) =~= rest);
    assert((seq![c] + rest).skip(1) =~= rest);
    lemma_plain_scalar(c);
}

/// The first separator, if there is one.
proof fn lemma_first_separator(s: Seq<char>, sep: char) -> (i: int)
    requires
        s.contains(sep),
    ensures
        0 <= i < s.len(),
        s[i] == sep,
        !s.take(i).contains(sep),
    decreases s.len(),
{
    let k = choose|k: int| 0 <= k < s.len() && s[k] == sep;
    if s.take(k).contains(sep) {
        let i = lemma_first_separator(s.take(k), sep);
        assert(s.take(k).take(i) =~= s.take(i));
        i
    } else {
        k
    }
}

/// A part is its name, an equals sign and its value, and the name holds no
/// equals sign; without one the part is all name.
pub proof fn law_parts_have_a_name_and_a_value(part: Seq<char>)
    ensures
        !key_of(part).contains('='),
        part.contains('=') ==> part == key_of(part).push('=') + value_of(part),
        !part.contains('=') ==> key_of(part) == part && value_of(part).len() == 0,
        key_of(part).len() < part.len() <==> part.contains('='),
{
    if part.contains('=') {
        let i = lemma_first_separator(part, '=');
        let rest = part.skip(i + 1);
        assert(part =~= part.take(i).push('=') + rest);
        lemma_split_first(part.take(i), rest, '=');
        assert(part.skip(key_of(part).len() as int + 1) =~= rest);
    } else {
        lemma_split_whole(part, '=');
    }
}

/// A character that neither escapes nor is a plus sign is read as itself,
/// whatever follows; so is a percent sign without two hexadecimal digits
/// behind it.
pub proof fn law_other_characters_are_read_as_they_are(c: char, rest: Seq<char>)
    requires
        c != '+',
        c == '%' ==> rest.len() < 2 || !"0123456789abcdefABCDEF"@.contains(rest[0])
            || !"0123456789abcdefABCDEF"@.contains(rest[1]),
    ensures
        form_read(seq![c] + rest) == encode_utf8(seq![c]) + form_read(rest),
{
    let whole = seq![c] + rest;
    assert(whole.skip(1) =~= rest);
    reveal_with_fuel(encode_utf8, 2);
    assert(seq![c].drop_first() =~= Seq::<char>::empty());
    assert(encode_utf8(seq![c]) =~= encode_scalar(c as u32));
    if escaped(whole) {
        assert(whole[1] == rest[0] && whole[2] == rest[1]);
        lemma_digit_is_listed(rest[0]);
        lemma_digit_is_listed(rest[1]);
    }
}

/// Whatever has a value as a hexadecimal digit is one of the digits.
proof fn lemma_digit_is_listed(c: char)
    requires
        hex_value(c) is Some,
    ensures
        "0123456789abcdefABCDEF"@.contains(c),
{
    reveal_strlit("0123456789abcdefABCDEF");
    reveal_strlit("0123456789abcdef");
    reveal_strlit("0123456789ABCDEF");
    law_hexadecimal_digits(c);
    let digits = "0123456789abcdefABCDEF"@;
    let v = hex_value(c)->0 as int;
    if c == "0123456789abcdef"@[v] {
        assert(digits[v] == c);
    } else {
        assert(digits[v + 6] == c);
    }
}

} // verus!
