//! Strings as sequences of characters: splitting, joining, replacing,
//! trimming and decimal numerals.

use vstd::prelude::*;

verus! {

/// `String::push` appends one character at the end of the string.
pub assume_specification[ String::push ](s: &mut String, c: char)
    ensures
        final(s)@ == old(s)@.push(c),
;

/// The characters of each string of a list.
pub open spec fn texts(list: Seq<String>) -> Seq<Seq<char>> {
    Seq::new(list.len(), |i: int| list[i]@)
}

/// The pieces of `s` between the occurrences of `sep`. There is always at
/// least one piece, and an empty piece wherever two separators touch.
pub open spec fn split_on(s: Seq<char>, sep: char) -> Seq<Seq<char>>
    decreases s.len(),
{
    if s.len() == 0 {
        seq![Seq::empty()]
    } else {
        let before = split_on(s.drop_last(), sep);
        if s.last() == sep {
            before.push(Seq::empty())
        } else {
            before.drop_last().push(before.last().push(s.last()))
        }
    }
}

/// The pieces one after the other, with `sep` between neighbours.
pub open spec fn join_with(pieces: Seq<Seq<char>>, sep: char) -> Seq<char>
    decreases pieces.len(),
{
    if pieces.len() == 0 {
        Seq::empty()
    } else if pieces.len() == 1 {
        pieces[0]
    } else {
        join_with(pieces.drop_last(), sep).push(sep) + pieces.last()
    }
}

/// `text` with every occurrence of `from`, taken from the left and without
/// overlap, replaced by `to`.
pub open spec fn replaced(text: Seq<char>, from: Seq<char>, to: Seq<char>) -> Seq<char>
    decreases text.len(),
{
    if text.len() == 0 || from.len() == 0 {
        text
    } else if from.is_prefix_of(text) {
        to + replaced(text.skip(from.len() as int), from, to)
    } else {
        seq![text[0]] + replaced(text.skip(1), from, to)
    }
}

/// The digit that stands for `d`, for `d` below ten.
pub open spec fn digit(d: nat) -> char {
    (48 + d) as char
}

/// The decimal numeral of `n`, without leading zeros.
pub open spec fn decimal(n: nat) -> Seq<char>
    decreases n,
{
    if n < 10 {
        seq![digit(n)]
    } else {
        decimal(n / 10).push(digit(n % 10))
    }
}

/// The characters with the Unicode property White_Space.
pub open spec fn is_white(c: char) -> bool {
    ||| '\u{9}' <= c <= '\u{d}'
    ||| c == ' '
    ||| c == '\u{85}'
    ||| c == '\u{a0}'
    ||| c == '\u{1680}'
    ||| '\u{2000}' <= c <= '\u{200a}'
    ||| c == '\u{2028}'
    ||| c == '\u{2029}'
    ||| c == '\u{202f}'
    ||| c == '\u{205f}'
    ||| c == '\u{3000}'
}

/// `s` without the white space at its start and at its end.
pub open spec fn trimmed(s: Seq<char>) -> Seq<char>
    decreases s.len(),
{
    if s.len() == 0 {
        s
    } else if is_white(s.last()) {
        trimmed(s.drop_last())
    } else if is_white(s[0]) {
        trimmed(s.skip(1))
    } else {
        s
    }
}

/// A split has at least one piece.
pub proof fn lemma_split_some(s: Seq<char>, sep: char)
    ensures
        split_on(s, sep).len() > 0,
    decreases s.len(),
{
    if s.len() > 0 {
        lemma_split_some(s.drop_last(), sep);
    }
}

/// No piece of a split holds the separator.
pub proof fn lemma_split_clean(s: Seq<char>, sep: char, i: int)
    requires
        0 <= i < split_on(s, sep).len(),
    ensures
        !split_on(s, sep)[i].contains(sep),
    decreases s.len(),
{
    if s.len() > 0 {
        let before = split_on(s.drop_last(), sep);
        lemma_split_some(s.drop_last(), sep);
        if s.last() == sep {
            if i < before.len() {
                lemma_split_clean(s.drop_last(), sep, i);
            }
        } else if i < before.len() - 1 {
            lemma_split_clean(s.drop_last(), sep, i);
        } else {
            lemma_split_clean(s.drop_last(), sep, before.len() - 1);
        }
    }
}

/// Without a separator there is one piece.
pub proof fn lemma_split_whole(s: Seq<char>, sep: char)
    requires
        !s.contains(sep),
    ensures
        split_on(s, sep) == seq![s],
    decreases s.len(),
{
    if s.len() > 0 {
        assert forall|i: int| 0 <= i < s.drop_last().len() implies s.drop_last()[i] != sep by {
            assert(s[i] != sep);
        }
        lemma_split_whole(s.drop_last(), sep);
        assert(s[s.len() - 1] != sep);
        assert(s.drop_last().push(s.last()) =~= s);
        assert(split_on(s, sep) =~= seq![s]);
    } else {
        assert(s =~= Seq::empty());
    }
}

/// What follows a separator is a piece of its own.
pub proof fn lemma_split_tail(s: Seq<char>, piece: Seq<char>, sep: char)
    requires
        !piece.contains(sep),
    ensures
        split_on(s.push(sep) + piece, sep) == split_on(s, sep).push(piece),
    decreases piece.len(),
{
    let whole = s.push(sep) + piece;
    if piece.len() == 0 {
        assert(whole =~= s.push(sep));
        assert(whole.drop_last() =~= s);
        assert(piece =~= Seq::empty());
    } else {
        let less = piece.drop_last();
        assert forall|i: int| 0 <= i < less.len() implies less[i] != sep by {
            assert(piece[i] != sep);
        }
        lemma_split_tail(s, less, sep);
        assert(whole.drop_last() =~= s.push(sep) + less);
        assert(whole.last() == piece[piece.len() - 1]);
        assert(less.push(piece.last()) =~= piece);
        assert(split_on(s, sep).push(less).drop_last() =~= split_on(s, sep));
    }
}

/// What stands before the first separator is the first piece.
pub proof fn lemma_split_first(piece: Seq<char>, rest: Seq<char>, sep: char)
    requires
        !piece.contains(sep),
    ensures
        split_on(piece.push(sep) + rest, sep)[0] == piece,
    decreases rest.len(),
{
    let whole = piece.push(sep) + rest;
    lemma_split_whole(piece, sep);
    if rest.len() == 0 {
        assert(whole =~= piece.push(sep));
        assert(whole.drop_last() =~= piece);
    } else {
        lemma_split_first(piece, rest.drop_last(), sep);
        assert(whole.drop_last() =~= piece.push(sep) + rest.drop_last());
        lemma_split_count(piece, rest.drop_last(), sep);
    }
}

/// A separator makes two pieces at least.
proof fn lemma_split_count(piece: Seq<char>, rest: Seq<char>, sep: char)
    ensures
        split_on(piece.push(sep) + rest, sep).len() >= 2,
    decreases rest.len(),
{
    let whole = piece.push(sep) + rest;
    if rest.len() == 0 {
        assert(whole =~= piece.push(sep));
        lemma_split_some(whole.drop_last(), sep);
    } else {
        lemma_split_count(piece, rest.drop_last(), sep);
        assert(whole.drop_last() =~= piece.push(sep) + rest.drop_last());
    }
}

/// Splitting undoes joining, if no piece holds the separator.
pub proof fn lemma_split_join(pieces: Seq<Seq<char>>, sep: char)
    requires
        pieces.len() > 0,
        forall|i: int| 0 <= i < pieces.len() ==> !(#[trigger] pieces[i]).contains(sep),
    ensures
        split_on(join_with(pieces, sep), sep) == pieces,
    decreases pieces.len(),
{
    if pieces.len() == 1 {
        lemma_split_whole(pieces[0], sep);
        assert(seq![pieces[0]] =~= pieces);
    } else {
        let before = pieces.drop_last();
        assert forall|i: int| 0 <= i < before.len() implies !(#[trigger] before[i]).contains(sep) by {
            assert(before[i] == pieces[i]);
        }
        lemma_split_join(before, sep);
        assert(!pieces[pieces.len() - 1].contains(sep));
        lemma_split_tail(join_with(before, sep), pieces.last(), sep);
        assert(before.push(pieces.last()) =~= pieces);
    }
}

/// Joining with the last piece grown by one character.
proof fn lemma_join_grown(pieces: Seq<Seq<char>>, c: char, sep: char)
    requires
        pieces.len() > 0,
    ensures
        join_with(pieces.drop_last().push(pieces.last().push(c)), sep) == join_with(pieces, sep).push(c),
{
    let grown = pieces.drop_last().push(pieces.last().push(c));
    assert(grown.drop_last() =~= pieces.drop_last());
    if pieces.len() > 1 {
        assert(join_with(grown, sep) =~= join_with(pieces, sep).push(c));
    }
}

/// Joining undoes splitting.
pub proof fn lemma_join_split(s: Seq<char>, sep: char)
    ensures
        join_with(split_on(s, sep), sep) == s,
    decreases s.len(),
{
    if s.len() > 0 {
        let before = split_on(s.drop_last(), sep);
        lemma_split_some(s.drop_last(), sep);
        lemma_join_split(s.drop_last(), sep);
        assert(s.drop_last().push(s.last()) =~= s);
        if s.last() == sep {
            assert(before.push(Seq::empty()).drop_last() =~= before);
            assert(join_with(before, sep).push(sep) + Seq::<char>::empty() =~= s);
        } else {
            lemma_join_grown(before, s.last(), sep);
        }
    } else {
        assert(s =~= Seq::empty());
    }
}

/// Whether two strings hold the same characters.
pub fn same(a: &str, b: &str) -> (r: bool)
    ensures
        r == (a@ == b@),
{
    a.to_owned() == b.to_owned()
}

/// The characters of a string.
pub fn chars_of(s: &str) -> (r: Vec<char>)
    ensures
        r@ == s@,
{
    let mut r: Vec<char> = Vec::new();
    for c in it: s.chars()
        invariant
            r@ == it.seq().take(it.index() as int),
            it.seq() == s@,
    {
        r.push(c);
    }
    assert(s@.take(s@.len() as int) == s@);
    r
}

/// The string with the characters from `from` up to `to`.
pub fn slice_of(chars: &Vec<char>, from: usize, to: usize) -> (r: String)
    requires
        from <= to <= chars.len(),
    ensures
        r@ == chars@.subrange(from as int, to as int),
{
    let mut r = String::new();
    let mut i: usize = from;
    while i < to
        invariant
            from <= i <= to <= chars.len(),
            r@ == chars@.subrange(from as int, i as int),
        decreases to - i,
    {
        r.push(chars[i]);
        i = i + 1;
    }
    r
}

/// Splits `s` at every `sep`.
pub fn split(s: &str, sep: char) -> (r: Vec<String>)
    ensures
        texts(r@) == split_on(s@, sep),
{
    let chars = chars_of(s);
    let mut r: Vec<String> = Vec::new();
    let mut piece = String::new();
    let mut i: usize = 0;
    while i < chars.len()
        invariant
            i <= chars.len(),
            texts(r@).push(piece@) == split_on(chars@.take(i as int), sep),
        decreases chars.len() - i,
    {
        let c = chars[i];
        let ghost before = split_on(chars@.take(i as int), sep);
        assert(chars@.take(i + 1).drop_last() == chars@.take(i as int));
        assert(before.drop_last() == texts(r@));
        if c == sep {
            r.push(piece);
            piece = String::new();
            assert(texts(r@) == before);
        } else {
            piece.push(c);
        }
        i = i + 1;
    }
    assert(chars@.take(chars.len() as int) == chars@);
    let ghost before = texts(r@);
    r.push(piece);
    assert(texts(r@) == before.push(piece@));
    r
}

/// Joins the pieces with `sep` between them.
pub fn join(pieces: &Vec<String>, sep: char) -> (r: String)
    ensures
        r@ == join_with(texts(pieces@), sep),
{
    let mut r = String::new();
    let mut i: usize = 0;
    while i < pieces.len()
        invariant
            i <= pieces.len(),
            r@ == join_with(texts(pieces@).take(i as int), sep),
        decreases pieces.len() - i,
    {
        assert(texts(pieces@).take(i + 1).drop_last() == texts(pieces@).take(i as int));
        if i > 0 {
            r.push(sep);
        }
        r.append(pieces[i].as_str());
        i = i + 1;
    }
    assert(texts(pieces@).take(pieces.len() as int) == texts(pieces@));
    r
}

/// Replaces every occurrence of `from` in `text` by `to`.
pub fn replace(text: &str, from: &str, to: &str) -> (r: String)
    ensures
        r@ == replaced(text@, from@, to@),
{
    let source = chars_of(text);
    let pattern = chars_of(from);
    if pattern.len() == 0 {
        return text.to_owned();
    }
    let mut r = String::new();
    let mut i: usize = 0;
    assert(source@.skip(0) == source@);
    while i < source.len()
        invariant
            i <= source.len(),
            pattern@ == from@,
            pattern.len() > 0,
            r@ + replaced(source@.skip(i as int), from@, to@) == replaced(source@, from@, to@),
        decreases source.len() - i,
    {
        let ghost rest = source@.skip(i as int);
        if matches_at(&source, i, &pattern) {
            assert(rest.skip(from@.len() as int) == source@.skip(i + from@.len()));
            r.append(to);
            i = i + pattern.len();
        } else {
            assert(rest.skip(1) == source@.skip(i + 1));
            r.push(source[i]);
            i = i + 1;
        }
    }
    r
}

/// Whether `pattern` occurs in `source` at position `at`.
fn matches_at(source: &Vec<char>, at: usize, pattern: &Vec<char>) -> (r: bool)
    requires
        at <= source.len(),
    ensures
        r == pattern@.is_prefix_of(source@.skip(at as int)),
{
    let ghost rest = source@.skip(at as int);
    if source.len() - at < pattern.len() {
        return false;
    }
    let mut k: usize = 0;
    while k < pattern.len()
        invariant
            k <= pattern.len() <= source.len() - at,
            rest == source@.skip(at as int),
            forall|j: int| 0 <= j < k ==> pattern@[j] == rest[j],
        decreases pattern.len() - k,
    {
        if pattern[k] != source[at + k] {
            assert(pattern@[k as int] != rest[k as int]);
            return false;
        }
        k = k + 1;
    }
    assert(pattern@ == rest.subrange(0, pattern.len() as int));
    true
}

/// Writes `n` in decimal.
pub fn numeral(n: u64) -> (r: String)
    ensures
        r@ == decimal(n as nat),
    decreases n,
{
    let mut r = String::new();
    if n >= 10 {
        r = numeral(n / 10);
    }
    let d: u8 = 48 + (n % 10) as u8;
    r.push(d as char);
    r
}

/// Removes the white space around `s`.
pub fn trim(s: &str) -> (r: String)
    ensures
        r@ == trimmed(s@),
{
    let chars = chars_of(s);
    let mut from: usize = 0;
    let mut to: usize = chars.len();
    assert(chars@.subrange(0, to as int) == chars@);
    while from < to && white(chars[to - 1])
        invariant
            from == 0,
            to <= chars.len(),
            trimmed(chars@.subrange(0, to as int)) == trimmed(chars@),
        decreases to,
    {
        assert(chars@.subrange(0, to as int).drop_last() == chars@.subrange(0, to - 1));
        to = to - 1;
    }
    while from < to && white(chars[from])
        invariant
            from <= to <= chars.len(),
            from < to ==> !is_white(chars@[to - 1]),
            trimmed(chars@.subrange(from as int, to as int)) == trimmed(chars@),
        decreases to - from,
    {
        assert(chars@.subrange(from as int, to as int).skip(1) == chars@.subrange(from + 1, to as int));
        from = from + 1;
    }
    slice_of(&chars, from, to)
}

/// Whether `c` is white space.
fn white(c: char) -> (r: bool)
    ensures
        r == is_white(c),
{
    ('\u{9}' <= c && c <= '\u{d}') || c == ' ' || c == '\u{85}' || c == '\u{a0}' || c == '\u{1680}' || (
    '\u{2000}' <= c && c <= '\u{200a}') || c == '\u{2028}' || c == '\u{2029}' || c == '\u{202f}' || c
        == '\u{205f}' || c == '\u{3000}'
}

/// The number that some digits stand for.
pub open spec fn digits_value(s: Seq<char>) -> nat
    decreases s.len(),
{
    if s.len() == 0 {
        0
    } else {
        10 * digits_value(s.drop_last()) + (s.last() as nat - '0' as nat) as nat
    }
}

/// A numeral is made of digits, starts with a zero only if it is that of zero,
/// and stands for its number.
pub proof fn law_numerals_read_back(n: nat)
    ensures
        decimal(n).len() >= 1,
        forall|i: int| 0 <= i < decimal(n).len() ==> '0' <= #[trigger] decimal(n)[i] <= '9',
        n > 0 ==> decimal(n)[0] != '0',
        digits_value(decimal(n)) == n,
    decreases n,
{
    reveal_with_fuel(digits_value, 2);
    if n >= 10 {
        let before = decimal(n / 10);
        law_numerals_read_back(n / 10);
        assert(decimal(n).drop_last() =~= before);
        assert forall|i: int| 0 <= i < decimal(n).len() implies '0' <= #[trigger] decimal(n)[i]
            <= '9' by {
            if i < before.len() {
                assert('0' <= before[i] <= '9');
            }
        }
        assert(decimal(n)[0] == before[0]);
    } else {
        assert(decimal(n).drop_last() =~= Seq::<char>::empty());
    }
}

/// Different numbers have different numerals.
pub proof fn law_numerals_differ(n: nat, m: nat)
    requires
        n != m,
    ensures
        decimal(n) != decimal(m),
{
    law_numerals_read_back(n);
    law_numerals_read_back(m);
}

/// What trimming leaves has no white space at either end, and what it takes
/// away is white space.
pub proof fn law_trimming(s: Seq<char>)
    ensures
        trimmed(s).len() > 0 ==> !is_white(trimmed(s)[0]) && !is_white(trimmed(s).last()),
        exists|from: int, to: int|
            {
                &&& 0 <= from <= to <= s.len()
                &&& trimmed(s) == #[trigger] s.subrange(from, to)
                &&& forall|i: int| 0 <= i < from || to <= i < s.len() ==> is_white(#[trigger] s[i])
            },
    decreases s.len(),
{
    if s.len() == 0 {
        assert(s.subrange(0, 0) =~= s);
    } else if is_white(s.last()) {
        let less = s.drop_last();
        law_trimming(less);
        let (from, to) = choose|from: int, to: int|
            {
                &&& 0 <= from <= to <= less.len()
                &&& trimmed(less) == #[trigger] less.subrange(from, to)
                &&& forall|i: int|
                    0 <= i < from || to <= i < less.len() ==> is_white(#[trigger] less[i])
            };
        assert(s.subrange(from, to) =~= less.subrange(from, to));
        assert forall|i: int| 0 <= i < from || to <= i < s.len() implies is_white(
            #[trigger] s[i],
        ) by {
            if i < less.len() {
                assert(is_white(less[i]));
            }
        }
    } else if is_white(s[0]) {
        let less = s.skip(1);
        law_trimming(less);
        let (from, to) = choose|from: int, to: int|
            {
                &&& 0 <= from <= to <= less.len()
                &&& trimmed(less) == #[trigger] less.subrange(from, to)
                &&& forall|i: int|
                    0 <= i < from || to <= i < less.len() ==> is_white(#[trigger] less[i])
            };
        assert(s.subrange(from + 1, to + 1) =~= less.subrange(from, to));
        assert forall|i: int| 0 <= i < from + 1 || to + 1 <= i < s.len() implies is_white(
            #[trigger] s[i],
        ) by {
            if i > 0 {
                assert(is_white(less[i - 1]));
            }
        }
    } else {
        assert(s.subrange(0, s.len() as int) =~= s);
    }
}

/// Whether `from` occurs in `text` at a position.
pub open spec fn occurs_at(text: Seq<char>, from: Seq<char>, at: int) -> bool {
    &&& 0 <= at
    &&& at + from.len() <= text.len()
    &&& text.subrange(at, at + from.len()) == from
}

/// Replacing leaves everything before the first occurrence, puts the new text
/// in its place, and goes on behind it.
pub proof fn law_first_occurrence_is_replaced(
    text: Seq<char>,
    from: Seq<char>,
    to: Seq<char>,
    at: int,
)
    requires
        from.len() > 0,
        occurs_at(text, from, at),
        forall|i: int| 0 <= i < at ==> !(#[trigger] occurs_at(text, from, i)),
    ensures
        replaced(text, from, to) == text.take(at) + to + replaced(
            text.skip(at + from.len()),
            from,
            to,
        ),
    decreases at,
{
    if at == 0 {
        assert(from.is_prefix_of(text));
        assert(text.take(0) + to =~= to);
    } else {
        let rest = text.skip(1);
        assert(!occurs_at(text, from, 0));
        assert(!from.is_prefix_of(text));
        assert(rest.subrange(at - 1, at - 1 + from.len()) =~= text.subrange(at, at + from.len()));
        assert forall|i: int| 0 <= i < at - 1 implies !(#[trigger] occurs_at(rest, from, i)) by {
            assert(!occurs_at(text, from, i + 1));
            assert(rest.subrange(i, i + from.len()) =~= text.subrange(i + 1, i + 1 + from.len()));
        }
        law_first_occurrence_is_replaced(rest, from, to, at - 1);
        assert(rest.skip(at - 1 + from.len()) =~= text.skip(at + from.len()));
        assert(seq![text[0]] + rest.take(at - 1) =~= text.take(at));
        assert(replaced(text, from, to) =~= text.take(at) + to + replaced(
            text.skip(at + from.len()),
            from,
            to,
        ));
    }
}

/// A text without an occurrence is left as it is.
pub proof fn law_nothing_else_is_replaced(text: Seq<char>, from: Seq<char>, to: Seq<char>)
    requires
        from.len() > 0,
        forall|i: int| !(#[trigger] occurs_at(text, from, i)),
    ensures
        replaced(text, from, to) == text,
    decreases text.len(),
{
    if text.len() > 0 {
        let rest = text.skip(1);
        assert(!occurs_at(text, from, 0));
        assert(!from.is_prefix_of(text));
        assert forall|i: int| !(#[trigger] occurs_at(rest, from, i)) by {
            assert(!occurs_at(text, from, i + 1));
            if 0 <= i && i + from.len() <= rest.len() {
                assert(rest.subrange(i, i + from.len()) =~= text.subrange(
                    i + 1,
                    i + 1 + from.len(),
                ));
            }
        }
        law_nothing_else_is_replaced(rest, from, to);
        assert(seq![text[0]] + rest =~= text);
    }
}

/// Of the first hundred and twenty-eight characters only the space and the
/// five controls from the tab to the carriage return are white space.
pub proof fn law_white_space(c: char)
    requires
        c < '\u{80}',
    ensures
        is_white(c) <==> c == ' ' || c == '\t' || c == '\n' || c == '\u{b}' || c == '\u{c}' || c
            == '\r',
{
}

/// Trimming twice is trimming once, and text without white space at its ends
/// is left as it is.
pub proof fn law_trimming_settles(s: Seq<char>)
    ensures
        trimmed(trimmed(s)) == trimmed(s),
        s.len() > 0 && !is_white(s[0]) && !is_white(s.last()) ==> trimmed(s) == s,
{
    law_trimming(s);
}

} // verus!
