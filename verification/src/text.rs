//! Texts: cutting, joining, searching.

use vstd::prelude::*;

verus! {

/// `String::push`: the character is appended at the end of the string.
pub assume_specification[ std::string::String::push ](s: &mut String, c: char)
    ensures
        final(s)@ == old(s)@.push(c),
;

/// The texts of a sequence of strings.
pub open spec fn texts(strings: Seq<String>) -> Seq<Seq<char>> {
    Seq::new(strings.len(), |i: int| strings[i]@)
}

/// The text of an optional string.
pub open spec fn opt_text(text: Option<String>) -> Option<Seq<char>> {
    match text {
        Some(inner) => Some(inner@),
        None => None,
    }
}

/// The texts of two sequences of strings, pair by pair.
pub open spec fn text_pairs(pairs: Seq<(String, String)>) -> Seq<(Seq<char>, Seq<char>)> {
    Seq::new(pairs.len(), |i: int| (pairs[i].0@, pairs[i].1@))
}

/// The characters of `text`, in order.
pub fn char_vec(text: &str) -> (chars: Vec<char>)
    ensures
        chars@ == text@,
{
    let mut chars: Vec<char> = Vec::new();
    for c in it: text.chars()
        invariant
            chars@ == it.seq().take(it.index() as int),
            it.seq() == text@,
    {
        chars.push(c);
    }
    chars
}

/// The string made of `chars[from..to]`.
pub fn string_range(chars: &Vec<char>, from: usize, to: usize) -> (text: String)
    requires
        from <= to <= chars@.len(),
    ensures
        text@ == chars@.subrange(from as int, to as int),
{
    let mut text = String::new();
    let mut i: usize = from;
    while i < to
        invariant
            from <= i <= to <= chars@.len(),
            text@ == chars@.subrange(from as int, i as int),
        decreases to - i,
    {
        text.push(chars[i]);
        i += 1;
        assert(chars@.subrange(from as int, i as int) == chars@.subrange(
            from as int,
            i - 1,
        ).push(chars@[i - 1]));
    }
    text
}

/// Whether two texts are equal.
pub fn same(a: &str, b: &str) -> (equal: bool)
    ensures
        equal == (a@ == b@),
{
    a.to_owned() == b.to_owned()
}

/// Copies a list of strings.
pub fn clone_all(strings: &Vec<String>) -> (copies: Vec<String>)
    ensures
        copies@ == strings@,
{
    let mut copies: Vec<String> = Vec::new();
    for i in 0..strings.len()
        invariant
            copies@ == strings@.take(i as int),
    {
        copies.push(strings[i].clone());
        assert(strings@.take(i + 1) == strings@.take(i as int).push(strings@[i as int]));
    }
    copies
}

/// Copies an optional string.
pub fn clone_opt(text: &Option<String>) -> (copy: Option<String>)
    ensures
        copy == *text,
{
    match text {
        Some(inner) => Some(inner.clone()),
        None => None,
    }
}

/// Whether one of the strings has the given text.
pub fn contains_text(strings: &Vec<String>, text: &str) -> (found: bool)
    ensures
        found == texts(strings@).contains(text@),
{
    for i in 0..strings.len()
        invariant
            forall|j: int| 0 <= j < i ==> #[trigger] strings@[j]@ != text@,
    {
        if same(&strings[i], text) {
            assert(texts(strings@)[i as int] == text@);
            return true;
        }
    }
    assert forall|j: int| 0 <= j < texts(strings@).len() implies texts(strings@)[j] != text@ by {
        assert(strings@[j]@ != text@);
    }
    false
}

// ---------------------------------------------------------------------------
// Concatenation
// ---------------------------------------------------------------------------

/// `a` followed by `b`.
pub fn cat2(a: &str, b: &str) -> (text: String)
    ensures
        text@ == a@ + b@,
{
    let mut text = a.to_owned();
    text.append(b);
    text
}

/// `a`, `b` and `c` in a row.
pub fn cat3(a: &str, b: &str, c: &str) -> (text: String)
    ensures
        text@ == a@ + b@ + c@,
{
    let mut text = a.to_owned();
    text.append(b);
    text.append(c);
    text
}

/// Four texts in a row.
pub fn cat4(a: &str, b: &str, c: &str, d: &str) -> (text: String)
    ensures
        text@ == a@ + b@ + c@ + d@,
{
    let mut text = cat3(a, b, c);
    text.append(d);
    text
}

/// Five texts in a row.
pub fn cat5(a: &str, b: &str, c: &str, d: &str, e: &str) -> (text: String)
    ensures
        text@ == a@ + b@ + c@ + d@ + e@,
{
    let mut text = cat4(a, b, c, d);
    text.append(e);
    text
}

// ---------------------------------------------------------------------------
// Splitting and joining
// ---------------------------------------------------------------------------

/// The pieces of `text` between the occurrences of `separator`. There is one
/// piece more than there are separators.
pub open spec fn split(text: Seq<char>, separator: char) -> Seq<Seq<char>>
    decreases text.len(),
{
    if text.len() == 0 {
        seq![Seq::<char>::empty()]
    } else {
        let before = split(text.drop_last(), separator);
        if text.last() == separator {
            before.push(Seq::<char>::empty())
        } else {
            before.drop_last().push(before.last().push(text.last()))
        }
    }
}

/// The pieces with `separator` between neighbours.
pub open spec fn join(pieces: Seq<Seq<char>>, separator: Seq<char>) -> Seq<char>
    decreases pieces.len(),
{
    if pieces.len() == 0 {
        Seq::empty()
    } else if pieces.len() == 1 {
        pieces[0]
    } else {
        join(pieces.drop_last(), separator) + separator + pieces.last()
    }
}

/// A text is never split into no pieces at all, and no piece holds the
/// separator.
pub proof fn lemma_split_pieces(text: Seq<char>, separator: char)
    ensures
        split(text, separator).len() >= 1,
        forall|i: int|
            0 <= i < split(text, separator).len() ==> !(#[trigger] split(text, separator)[i]).contains(
                separator,
            ),
    decreases text.len(),
{
    if text.len() > 0 {
        lemma_split_pieces(text.drop_last(), separator);
        let before = split(text.drop_last(), separator);
        if text.last() != separator {
            let grown = before.last().push(text.last());
            assert(!grown.contains(separator)) by {
                if grown.contains(separator) {
                    let k = choose|k: int| 0 <= k < grown.len() && grown[k] == separator;
                    assert(k < before.last().len());
                    assert(before.last()[k] == separator);
                    assert(before[before.len() - 1].contains(separator));
                }
            }
        }
    }
}

/// Splitting loses nothing: joining the pieces with the separator gives the
/// text back.
pub proof fn join_inverts_split(text: Seq<char>, separator: char)
    ensures
        join(split(text, separator), seq![separator]) == text,
    decreases text.len(),
{
    if text.len() == 0 {
        assert(join(split(text, separator), seq![separator]) =~= text);
    } else {
        let init = text.drop_last();
        let before = split(init, separator);
        join_inverts_split(init, separator);
        lemma_split_pieces(init, separator);
        if text.last() == separator {
            let after = before.push(Seq::<char>::empty());
            assert(after.drop_last() =~= before);
            assert(join(after, seq![separator]) =~= init + seq![separator]);
            assert(text =~= init + seq![separator]);
        } else {
            let grown = before.last().push(text.last());
            let after = before.drop_last().push(grown);
            assert(after.drop_last() =~= before.drop_last());
            assert(text =~= init.push(text.last()));
            if before.len() == 1 {
                assert(join(after, seq![separator]) =~= grown);
            } else {
                assert(join(after, seq![separator]) =~= join(before, seq![separator]).push(
                    text.last(),
                ));
            }
        }
    }
}

/// Joining loses nothing either: pieces that do not hold the separator come out
/// of the joined text again.
pub proof fn split_inverts_join(pieces: Seq<Seq<char>>, separator: char)
    requires
        pieces.len() >= 1,
        forall|i: int| 0 <= i < pieces.len() ==> !(#[trigger] pieces[i]).contains(separator),
    ensures
        split(join(pieces, seq![separator]), separator) == pieces,
    decreases pieces.len(),
{
    let init = pieces.drop_last();
    let last = pieces.last();
    assert(last == pieces[pieces.len() - 1]);
    if pieces.len() == 1 {
        lemma_split_append(Seq::empty(), last, separator);
        assert(Seq::<char>::empty() + last =~= last);
        assert(split(last, separator) =~= pieces);
    } else {
        assert forall|i: int| 0 <= i < init.len() implies !(#[trigger] init[i]).contains(
            separator,
        ) by {
            assert(init[i] == pieces[i]);
        }
        split_inverts_join(init, separator);
        let front = join(init, seq![separator]) + seq![separator];
        assert(front.drop_last() =~= join(init, seq![separator]));
        assert(front.last() == separator);
        assert(split(front, separator) == init.push(Seq::<char>::empty()));
        lemma_split_append(front, last, separator);
        assert(Seq::<char>::empty() + last =~= last);
        assert(init.push(Seq::<char>::empty()).drop_last() =~= init);
        assert(split(front + last, separator) =~= pieces);
    }
}

/// Text without separators grows the last piece.
pub proof fn lemma_split_append(front: Seq<char>, tail: Seq<char>, separator: char)
    requires
        !tail.contains(separator),
    ensures
        split(front + tail, separator) == split(front, separator).drop_last().push(
            split(front, separator).last() + tail,
        ),
    decreases tail.len(),
{
    lemma_split_pieces(front, separator);
    if tail.len() == 0 {
        assert(front + tail =~= front);
        assert(split(front, separator).last() + tail =~= split(front, separator).last());
        assert(split(front, separator).drop_last().push(split(front, separator).last())
            =~= split(front, separator));
    } else {
        let shorter = tail.drop_last();
        assert(!shorter.contains(separator)) by {
            if shorter.contains(separator) {
                let k = choose|k: int| 0 <= k < shorter.len() && shorter[k] == separator;
                assert(tail[k] == separator);
            }
        }
        assert(tail[tail.len() - 1] != separator);
        lemma_split_append(front, shorter, separator);
        assert((front + tail).drop_last() =~= front + shorter);
        assert((front + tail).last() == tail.last());
        let before = split(front + shorter, separator);
        assert(before.drop_last() =~= split(front, separator).drop_last());
        assert(before.last().push(tail.last()) =~= split(front, separator).last() + tail);
    }
}

/// Splits a text at every occurrence of `separator`.
pub fn split_text(text: &str, separator: char) -> (pieces: Vec<String>)
    ensures
        texts(pieces@) == split(text@, separator),
        pieces@.len() >= 1,
{
    let chars = char_vec(text);
    let mut pieces: Vec<String> = Vec::new();
    let mut current = String::new();
    let mut i: usize = 0;
    assert(split(chars@.take(0), separator) =~= texts(pieces@).push(current@));
    while i < chars.len()
        invariant
            i <= chars@.len(),
            split(chars@.take(i as int), separator) == texts(pieces@).push(current@),
        decreases chars@.len() - i,
    {
        let c = chars[i];
        let ghost before = texts(pieces@).push(current@);
        let ghost grown = current@.push(c);
        let ghost old_pieces = pieces@;
        assert(chars@.take(i + 1).drop_last() =~= chars@.take(i as int));
        assert(chars@.take(i + 1).last() == c);
        if c == separator {
            pieces.push(current);
            current = String::new();
            assert(texts(pieces@) =~= before);
        } else {
            current.push(c);
            assert(before.drop_last() =~= texts(pieces@));
            assert(before.last().push(c) =~= grown);
        }
        i += 1;
    }
    assert(chars@.take(i as int) =~= chars@);
    let ghost before = texts(pieces@);
    let ghost last = current@;
    pieces.push(current);
    assert(texts(pieces@) =~= before.push(last));
    pieces
}

/// The strings with `separator` between neighbours.
pub fn join_texts(pieces: &Vec<String>, separator: &str) -> (text: String)
    ensures
        text@ == join(texts(pieces@), separator@),
{
    let mut text = String::new();
    let mut i: usize = 0;
    while i < pieces.len()
        invariant
            i <= pieces@.len(),
            text@ == join(texts(pieces@).take(i as int), separator@),
        decreases pieces@.len() - i,
    {
        if i > 0 {
            text.append(separator);
        }
        text.append(&pieces[i]);
        assert(texts(pieces@).take(i + 1).drop_last() =~= texts(pieces@).take(i as int));
        assert(texts(pieces@).take(i + 1).last() == pieces@[i as int]@);
        if i == 0 {
            assert(Seq::<char>::empty() + pieces@[0]@ =~= pieces@[0]@);
        }
        i += 1;
    }
    assert(texts(pieces@).take(i as int) =~= texts(pieces@));
    text
}

/// The position of the first `wanted` in `text`, or its length where there is
/// none.
pub open spec fn first_index(text: Seq<char>, wanted: char) -> int
    decreases text.len(),
{
    if text.len() == 0 {
        0
    } else if text[0] == wanted {
        0
    } else {
        1 + first_index(text.skip(1), wanted)
    }
}

/// What `first_index` finds.
pub proof fn lemma_first_index(text: Seq<char>, wanted: char)
    ensures
        0 <= first_index(text, wanted) <= text.len(),
        forall|j: int| 0 <= j < first_index(text, wanted) ==> text[j] != wanted,
        first_index(text, wanted) < text.len() ==> text[first_index(text, wanted)] == wanted,
        first_index(text, wanted) < text.len() <==> text.contains(wanted),
    decreases text.len(),
{
    if text.len() > 0 && text[0] != wanted {
        let rest = text.skip(1);
        lemma_first_index(rest, wanted);
        assert forall|j: int| 0 <= j < first_index(text, wanted) implies text[j] != wanted by {
            if j > 0 {
                assert(rest[j - 1] == text[j]);
            }
        }
        if text.contains(wanted) {
            let k = choose|k: int| 0 <= k < text.len() && text[k] == wanted;
            assert(rest[k - 1] == wanted);
        }
        if rest.contains(wanted) {
            let k = choose|k: int| 0 <= k < rest.len() && rest[k] == wanted;
            assert(text[k + 1] == wanted);
        }
    }
}

/// A position that holds the first `wanted` is `first_index`.
pub proof fn lemma_first_index_is(text: Seq<char>, wanted: char, at: int)
    requires
        0 <= at <= text.len(),
        forall|j: int| 0 <= j < at ==> text[j] != wanted,
        at < text.len() ==> text[at] == wanted,
    ensures
        first_index(text, wanted) == at,
{
    lemma_first_index(text, wanted);
}

/// The position of the first `wanted` in `chars`.
pub fn find_first(chars: &Vec<char>, wanted: char) -> (at: usize)
    ensures
        at == first_index(chars@, wanted),
        at <= chars@.len(),
{
    let mut i: usize = 0;
    while i < chars.len() && chars[i] != wanted
        invariant
            i <= chars@.len(),
            forall|j: int| 0 <= j < i ==> chars@[j] != wanted,
        decreases chars@.len() - i,
    {
        i += 1;
    }
    proof {
        lemma_first_index_is(chars@, wanted, i as int);
    }
    i
}

/// What stands before and after the first `separator`, where there is one.
pub open spec fn split_once(text: Seq<char>, separator: char) -> Option<(Seq<char>, Seq<char>)> {
    let at = first_index(text, separator);
    if at < text.len() {
        Some((text.take(at), text.skip(at + 1)))
    } else {
        None
    }
}

/// Splits a text at the first `separator`.
pub fn split_text_once(text: &str, separator: char) -> (halves: Option<(String, String)>)
    ensures
        match halves {
            Some((before, after)) => split_once(text@, separator) == Some((before@, after@)),
            None => split_once(text@, separator) is None,
        },
{
    let chars = char_vec(text);
    let at = find_first(&chars, separator);
    if at < chars.len() {
        let before = string_range(&chars, 0, at);
        let after = string_range(&chars, at + 1, chars.len());
        assert(before@ =~= text@.take(at as int));
        assert(after@ =~= text@.skip(at + 1));
        Some((before, after))
    } else {
        None
    }
}

/// Splits at the first `limit - 1` separators only, so that the last piece may
/// still hold some.
pub open spec fn splitn(text: Seq<char>, separator: char, limit: nat) -> Seq<Seq<char>>
    decreases limit,
{
    if limit <= 1 {
        seq![text]
    } else {
        match split_once(text, separator) {
            None => seq![text],
            Some((before, after)) => seq![before] + splitn(after, separator, (limit - 1) as nat),
        }
    }
}

/// At least one piece, and no more than the limit.
pub proof fn lemma_splitn_len(text: Seq<char>, separator: char, limit: nat)
    ensures
        1 <= splitn(text, separator, limit).len(),
        limit >= 1 ==> splitn(text, separator, limit).len() <= limit,
    decreases limit,
{
    if limit > 1 {
        if let Some((before, after)) = split_once(text, separator) {
            lemma_splitn_len(after, separator, (limit - 1) as nat);
        }
    }
}

/// Splits a text at the first `limit - 1` separators.
pub fn splitn_text(text: &str, separator: char, limit: usize) -> (pieces: Vec<String>)
    requires
        limit >= 1,
    ensures
        texts(pieces@) == splitn(text@, separator, limit as nat),
        1 <= pieces@.len() <= limit,
    decreases limit,
{
    proof {
        lemma_splitn_len(text@, separator, limit as nat);
    }
    if limit <= 1 {
        let pieces = vec![text.to_owned()];
        assert(texts(pieces@) =~= seq![text@]);
        return pieces;
    }
    match split_text_once(text, separator) {
        None => {
            let pieces = vec![text.to_owned()];
            assert(texts(pieces@) =~= seq![text@]);
            pieces
        },
        Some((before, after)) => {
            let ghost first = before@;
            let mut rest = splitn_text(&after, separator, limit - 1);
            let ghost tail = rest@;
            rest.insert(0, before);
            assert(texts(rest@) =~= seq![first] + texts(tail));
            rest
        },
    }
}

/// The position of the last `wanted` in `text`, or -1 where there is none.
pub open spec fn last_index(text: Seq<char>, wanted: char) -> int
    decreases text.len(),
{
    if text.len() == 0 {
        -1
    } else if text.last() == wanted {
        text.len() - 1
    } else {
        last_index(text.drop_last(), wanted)
    }
}

/// What `last_index` finds.
pub proof fn lemma_last_index(text: Seq<char>, wanted: char)
    ensures
        -1 <= last_index(text, wanted) < text.len(),
        last_index(text, wanted) >= 0 ==> text[last_index(text, wanted)] == wanted,
        forall|j: int| last_index(text, wanted) < j < text.len() ==> text[j] != wanted,
    decreases text.len(),
{
    if text.len() > 0 && text.last() != wanted {
        lemma_last_index(text.drop_last(), wanted);
        assert forall|j: int| last_index(text, wanted) < j < text.len() implies text[j] != wanted by {
            if j < text.len() - 1 {
                assert(text.drop_last()[j] == text[j]);
            }
        }
    }
}

/// The position of the last `wanted` in `chars`, where there is one.
pub fn find_last(chars: &Vec<char>, wanted: char) -> (at: Option<usize>)
    ensures
        match at {
            Some(position) => position == last_index(chars@, wanted) && position < chars@.len(),
            None => last_index(chars@, wanted) == -1,
        },
{
    proof {
        lemma_last_index(chars@, wanted);
    }
    let mut i: usize = chars.len();
    while i > 0
        invariant
            i <= chars@.len(),
            forall|j: int| i <= j < chars@.len() ==> chars@[j] != wanted,
            -1 <= last_index(chars@, wanted) < chars@.len(),
            last_index(chars@, wanted) >= 0 ==> chars@[last_index(chars@, wanted)] == wanted,
            forall|j: int|
                last_index(chars@, wanted) < j < chars@.len() ==> chars@[j] != wanted,
        decreases i,
    {
        i -= 1;
        if chars[i] == wanted {
            return Some(i);
        }
    }
    None
}

// ---------------------------------------------------------------------------
// Prefixes, suffixes and occurrences
// ---------------------------------------------------------------------------

/// Whether `text` begins with `prefix`.
pub open spec fn starts_with(text: Seq<char>, prefix: Seq<char>) -> bool {
    text.len() >= prefix.len() && text.take(prefix.len() as int) == prefix
}

/// Whether `text` ends with `suffix`.
pub open spec fn ends_with(text: Seq<char>, suffix: Seq<char>) -> bool {
    text.len() >= suffix.len() && text.skip(text.len() - suffix.len()) == suffix
}

/// Whether `text` begins with `prefix`.
pub fn has_prefix(text: &str, prefix: &str) -> (yes: bool)
    ensures
        yes == starts_with(text@, prefix@),
{
    let chars = char_vec(text);
    let wanted = char_vec(prefix);
    if chars.len() < wanted.len() {
        return false;
    }
    let mut i: usize = 0;
    while i < wanted.len()
        invariant
            chars@ == text@,
            wanted@ == prefix@,
            i <= wanted@.len() <= chars@.len(),
            forall|j: int| 0 <= j < i ==> chars@[j] == wanted@[j],
        decreases wanted@.len() - i,
    {
        if chars[i] != wanted[i] {
            assert(text@.take(prefix@.len() as int)[i as int] != prefix@[i as int]);
            return false;
        }
        i += 1;
    }
    assert(text@.take(prefix@.len() as int) =~= prefix@);
    true
}

/// Whether `text` ends with `suffix`.
pub fn has_suffix(text: &str, suffix: &str) -> (yes: bool)
    ensures
        yes == ends_with(text@, suffix@),
{
    let chars = char_vec(text);
    let wanted = char_vec(suffix);
    if chars.len() < wanted.len() {
        return false;
    }
    let offset: usize = chars.len() - wanted.len();
    let mut i: usize = 0;
    while i < wanted.len()
        invariant
            chars@ == text@,
            wanted@ == suffix@,
            i <= wanted@.len() <= chars@.len(),
            offset == chars.len() - wanted@.len(),
            forall|j: int| 0 <= j < i ==> chars@[offset + j] == wanted@[j],
        decreases wanted@.len() - i,
    {
        if chars[offset + i] != wanted[i] {
            assert(text@.skip(text@.len() - suffix@.len())[i as int] != suffix@[i as int]);
            return false;
        }
        i += 1;
    }
    assert(text@.skip(text@.len() - suffix@.len()) =~= suffix@);
    true
}

/// What follows `prefix`, where `text` begins with it.
pub open spec fn strip_prefix(text: Seq<char>, prefix: Seq<char>) -> Option<Seq<char>> {
    if starts_with(text, prefix) {
        Some(text.skip(prefix.len() as int))
    } else {
        None
    }
}

/// What follows `prefix`, where `text` begins with it.
pub fn without_prefix(text: &str, prefix: &str) -> (rest: Option<String>)
    ensures
        opt_text(rest) == strip_prefix(text@, prefix@),
{
    if has_prefix(text, prefix) {
        let chars = char_vec(text);
        let skipped: usize = char_vec(prefix).len();
        let rest = string_range(&chars, skipped, chars.len());
        assert(rest@ =~= text@.skip(prefix@.len() as int));
        Some(rest)
    } else {
        None
    }
}

/// Whether `wanted` occurs in `text`.
pub fn has_char(text: &str, wanted: char) -> (found: bool)
    ensures
        found == text@.contains(wanted),
{
    let chars = char_vec(text);
    let at = find_first(&chars, wanted);
    proof {
        lemma_first_index(chars@, wanted);
    }
    at < chars.len()
}

/// Whether `needle` stands in `text` at position `at`.
pub open spec fn occurs_at(text: Seq<char>, needle: Seq<char>, at: int) -> bool {
    0 <= at && at + needle.len() <= text.len() && text.subrange(at, at + needle.len()) == needle
}

/// Whether `needle` stands in `chars` at position `at`.
fn stands_at(chars: &Vec<char>, needle: &Vec<char>, at: usize) -> (yes: bool)
    requires
        at <= chars@.len(),
    ensures
        yes == occurs_at(chars@, needle@, at as int),
{
    if chars.len() - at < needle.len() {
        return false;
    }
    let mut i: usize = 0;
    while i < needle.len()
        invariant
            i <= needle@.len(),
            at + needle@.len() <= chars.len(),
            forall|j: int| 0 <= j < i ==> chars@[at + j] == needle@[j],
        decreases needle@.len() - i,
    {
        if chars[at + i] != needle[i] {
            assert(chars@.subrange(at as int, at + needle@.len())[i as int] != needle@[i as int]);
            return false;
        }
        i += 1;
    }
    assert(chars@.subrange(at as int, at + needle@.len()) =~= needle@);
    true
}

/// The position of the first occurrence of `needle` in `text`, where it occurs.
pub open spec fn first_occurrence(text: Seq<char>, needle: Seq<char>) -> Option<int>
    decreases text.len(),
{
    if occurs_at(text, needle, 0) {
        Some(0)
    } else if text.len() == 0 {
        None
    } else {
        match first_occurrence(text.skip(1), needle) {
            Some(at) => Some(at + 1),
            None => None,
        }
    }
}

proof fn lemma_occurs_skip(text: Seq<char>, needle: Seq<char>, at: int)
    requires
        text.len() > 0,
        at >= 1,
    ensures
        occurs_at(text, needle, at) == occurs_at(text.skip(1), needle, at - 1),
{
    if at + needle.len() <= text.len() {
        assert(text.subrange(at, at + needle.len()) =~= text.skip(1).subrange(
            at - 1,
            at - 1 + needle.len(),
        ));
    }
}

/// What `first_occurrence` finds.
pub proof fn lemma_first_occurrence(text: Seq<char>, needle: Seq<char>)
    ensures
        match first_occurrence(text, needle) {
            Some(at) => {
                &&& occurs_at(text, needle, at)
                &&& forall|j: int| 0 <= j < at ==> !(#[trigger] occurs_at(text, needle, j))
            },
            None => forall|j: int| !(#[trigger] occurs_at(text, needle, j)),
        },
    decreases text.len(),
{
    if !occurs_at(text, needle, 0) && text.len() > 0 {
        lemma_first_occurrence(text.skip(1), needle);
        match first_occurrence(text.skip(1), needle) {
            Some(at) => {
                lemma_occurs_skip(text, needle, at + 1);
                assert forall|j: int| 0 <= j < at + 1 implies !(#[trigger] occurs_at(
                    text,
                    needle,
                    j,
                )) by {
                    if j >= 1 {
                        lemma_occurs_skip(text, needle, j);
                    }
                }
            },
            None => {
                assert forall|j: int| !(#[trigger] occurs_at(text, needle, j)) by {
                    if j >= 1 {
                        lemma_occurs_skip(text, needle, j);
                    }
                }
            },
        }
    }
}

/// The position of the first occurrence of `needle` in `text`, where it occurs.
pub fn find_text(text: &str, needle: &str) -> (at: Option<usize>)
    ensures
        match at {
            Some(position) => first_occurrence(text@, needle@) == Some(position as int)
                && position + needle@.len() <= text@.len(),
            None => first_occurrence(text@, needle@) is None,
        },
{
    proof {
        lemma_first_occurrence(text@, needle@);
    }
    let chars = char_vec(text);
    let wanted = char_vec(needle);
    let mut i: usize = 0;
    loop
        invariant
            chars@ == text@,
            wanted@ == needle@,
            i <= chars@.len(),
            forall|j: int| 0 <= j < i ==> !(#[trigger] occurs_at(text@, needle@, j)),
            match first_occurrence(text@, needle@) {
                Some(at) => {
                    &&& occurs_at(text@, needle@, at)
                    &&& forall|j: int| 0 <= j < at ==> !(#[trigger] occurs_at(text@, needle@, j))
                },
                None => forall|j: int| !(#[trigger] occurs_at(text@, needle@, j)),
            },
        decreases chars@.len() - i,
    {
        if stands_at(&chars, &wanted, i) {
            return Some(i);
        }
        if i == chars.len() {
            return None;
        }
        i += 1;
    }
}

// ---------------------------------------------------------------------------
// White space
// ---------------------------------------------------------------------------

/// The characters with the Unicode property `White_Space`.
pub open spec fn is_whitespace(c: char) -> bool {
    ||| '\u{9}' <= c <= '\u{d}'
    ||| c == ' '
    ||| c == '\u{85}'
    ||| c == '\u{a0}'
    ||| c == '\u{1680}'
    ||| '\u{2000}' <= c <= '\u{200a}'
    ||| c == '\u{2028}'
    ||| c == '\u{2029}'
    ||| c == '\u{202f}'
    ||| c == '\u{205f}'
    ||| c == '\u{3000}'
}

/// Whether `c` has the Unicode property `White_Space`.
pub fn is_space(c: char) -> (yes: bool)
    ensures
        yes == is_whitespace(c),
{
    ('\u{9}' <= c && c <= '\u{d}') || c == ' ' || c == '\u{85}' || c == '\u{a0}' || c == '\u{1680}'
        || ('\u{2000}' <= c && c <= '\u{200a}') || c == '\u{2028}' || c == '\u{2029}' || c
        == '\u{202f}' || c == '\u{205f}' || c == '\u{3000}'
}

/// The text without the leading characters of which `drop` holds.
pub open spec fn trim_start_by(text: Seq<char>, drop: spec_fn(char) -> bool) -> Seq<char>
    decreases text.len(),
{
    if text.len() > 0 && drop(text[0]) {
        trim_start_by(text.skip(1), drop)
    } else {
        text
    }
}

/// The text without the trailing characters of which `drop` holds.
pub open spec fn trim_end_by(text: Seq<char>, drop: spec_fn(char) -> bool) -> Seq<char>
    decreases text.len(),
{
    if text.len() > 0 && drop(text.last()) {
        trim_end_by(text.drop_last(), drop)
    } else {
        text
    }
}

/// Holds of white space.
pub open spec fn whitespace() -> spec_fn(char) -> bool {
    |c: char| is_whitespace(c)
}

/// Holds of one character alone.
pub open spec fn only(wanted: char) -> spec_fn(char) -> bool {
    |c: char| c == wanted
}

/// The text without white space at both ends.
pub open spec fn trim(text: Seq<char>) -> Seq<char> {
    trim_end_by(trim_start_by(text, whitespace()), whitespace())
}

/// The text without `dropped` at the end.
pub open spec fn trim_end_char(text: Seq<char>, dropped: char) -> Seq<char> {
    trim_end_by(text, only(dropped))
}

/// The text without `dropped` at both ends.
pub open spec fn trim_char(text: Seq<char>, dropped: char) -> Seq<char> {
    trim_end_by(trim_start_by(text, only(dropped)), only(dropped))
}

proof fn lemma_trim_start_is(text: Seq<char>, drop: spec_fn(char) -> bool, from: int)
    requires
        0 <= from <= text.len(),
        forall|j: int| 0 <= j < from ==> drop(#[trigger] text[j]),
        from < text.len() ==> !drop(text[from]),
    ensures
        trim_start_by(text, drop) == text.skip(from),
    decreases from,
{
    if from > 0 {
        let rest = text.skip(1);
        assert(forall|j: int| 0 <= j < rest.len() ==> #[trigger] rest[j] == text[j + 1]);
        lemma_trim_start_is(rest, drop, from - 1);
        assert(rest.skip(from - 1) =~= text.skip(from));
        assert(drop(text[0]));
    } else {
        assert(text.skip(0) =~= text);
    }
}

proof fn lemma_trim_end_is(text: Seq<char>, drop: spec_fn(char) -> bool, to: int)
    requires
        0 <= to <= text.len(),
        forall|j: int| to <= j < text.len() ==> drop(#[trigger] text[j]),
        to > 0 ==> !drop(text[to - 1]),
    ensures
        trim_end_by(text, drop) == text.take(to),
    decreases text.len() - to,
{
    if to < text.len() {
        let init = text.drop_last();
        assert(forall|j: int| 0 <= j < init.len() ==> #[trigger] init[j] == text[j]);
        lemma_trim_end_is(init, drop, to);
        assert(init.take(to) =~= text.take(to));
        assert(drop(text[text.len() - 1]));
    } else {
        assert(text.take(to) =~= text);
    }
}

/// The text without white space at both ends.
pub fn trim_text(text: &str) -> (trimmed: String)
    ensures
        trimmed@ == trim(text@),
{
    let chars = char_vec(text);
    let ghost space = whitespace();
    let mut from: usize = 0;
    while from < chars.len() && is_space(chars[from])
        invariant
            from <= chars@.len(),
            forall|j: int| 0 <= j < from ==> is_whitespace(#[trigger] chars@[j]),
        decreases chars@.len() - from,
    {
        from += 1;
    }
    proof {
        lemma_trim_start_is(chars@, space, from as int);
    }
    let mut to: usize = chars.len();
    while to > from && is_space(chars[to - 1])
        invariant
            from <= to <= chars@.len(),
            forall|j: int| to <= j < chars@.len() ==> is_whitespace(#[trigger] chars@[j]),
        decreases to,
    {
        to -= 1;
    }
    proof {
        let rest = chars@.skip(from as int);
        assert(forall|j: int| 0 <= j < rest.len() ==> #[trigger] rest[j] == chars@[from + j]);
        lemma_trim_end_is(rest, space, to - from);
        assert(rest.take(to - from) =~= chars@.subrange(from as int, to as int));
    }
    string_range(&chars, from, to)
}

/// The text without `dropped` at the end.
pub fn trim_end_text(text: &str, dropped: char) -> (trimmed: String)
    ensures
        trimmed@ == trim_end_char(text@, dropped),
{
    let chars = char_vec(text);
    let mut to: usize = chars.len();
    while to > 0 && chars[to - 1] == dropped
        invariant
            to <= chars@.len(),
            forall|j: int| to <= j < chars@.len() ==> #[trigger] chars@[j] == dropped,
        decreases to,
    {
        to -= 1;
    }
    proof {
        lemma_trim_end_is(chars@, only(dropped), to as int);
        assert(chars@.take(to as int) =~= chars@.subrange(0, to as int));
    }
    string_range(&chars, 0, to)
}

/// The text without `dropped` at both ends.
pub fn trim_both_text(text: &str, dropped: char) -> (trimmed: String)
    ensures
        trimmed@ == trim_char(text@, dropped),
{
    let chars = char_vec(text);
    let ghost drop = only(dropped);
    let mut from: usize = 0;
    while from < chars.len() && chars[from] == dropped
        invariant
            from <= chars@.len(),
            forall|j: int| 0 <= j < from ==> #[trigger] chars@[j] == dropped,
        decreases chars@.len() - from,
    {
        from += 1;
    }
    proof {
        lemma_trim_start_is(chars@, drop, from as int);
        assert(chars@.skip(from as int) =~= chars@.subrange(from as int, chars@.len() as int));
    }
    let rest = string_range(&chars, from, chars.len());
    trim_end_text(&rest, dropped)
}

/// The text up to its first white space.
pub open spec fn first_word(text: Seq<char>) -> Seq<char>
    decreases text.len(),
{
    if text.len() == 0 || is_whitespace(text[0]) {
        Seq::empty()
    } else {
        seq![text[0]] + first_word(text.skip(1))
    }
}

proof fn lemma_first_word_is(text: Seq<char>, to: int)
    requires
        0 <= to <= text.len(),
        forall|j: int| 0 <= j < to ==> !is_whitespace(#[trigger] text[j]),
        to < text.len() ==> is_whitespace(text[to]),
    ensures
        first_word(text) == text.take(to),
    decreases to,
{
    if to == 0 {
        assert(text.take(0) =~= Seq::empty());
    } else {
        let rest = text.skip(1);
        assert(forall|j: int| 0 <= j < rest.len() ==> #[trigger] rest[j] == text[j + 1]);
        lemma_first_word_is(rest, to - 1);
        assert(!is_whitespace(text[0]));
        assert(text.take(to) =~= seq![text[0]] + rest.take(to - 1));
    }
}

/// The part of `chars` from `from` up to the first white space.
pub fn word_at(chars: &Vec<char>, from: usize) -> (word: String)
    requires
        from <= chars@.len(),
    ensures
        word@ == first_word(chars@.skip(from as int)),
{
    let mut to: usize = from;
    while to < chars.len() && !is_space(chars[to])
        invariant
            from <= to <= chars@.len(),
            forall|j: int| from <= j < to ==> !is_whitespace(#[trigger] chars@[j]),
        decreases chars@.len() - to,
    {
        to += 1;
    }
    proof {
        let rest = chars@.skip(from as int);
        assert(forall|j: int| 0 <= j < rest.len() ==> #[trigger] rest[j] == chars@[from + j]);
        lemma_first_word_is(rest, to - from);
        assert(rest.take(to - from) =~= chars@.subrange(from as int, to as int));
    }
    string_range(chars, from, to)
}

/// The text without any white space.
pub open spec fn without_whitespace(text: Seq<char>) -> Seq<char> {
    text.filter(|c: char| !is_whitespace(c))
}

/// Removes every white space character.
pub fn remove_whitespace(text: &str) -> (kept: String)
    ensures
        kept@ == without_whitespace(text@),
{
    let chars = char_vec(text);
    let ghost keep = |c: char| !is_whitespace(c);
    let mut kept = String::new();
    let mut i: usize = 0;
    proof {
        reveal(Seq::filter);
    }
    while i < chars.len()
        invariant
            i <= chars@.len(),
            kept@ == chars@.take(i as int).filter(keep),
            keep == (|c: char| !is_whitespace(c)),
        decreases chars@.len() - i,
    {
        let c = chars[i];
        proof {
            reveal(Seq::filter);
            assert(chars@.take(i + 1).drop_last() =~= chars@.take(i as int));
            assert(chars@.take(i + 1).last() == c);
        }
        if !is_space(c) {
            kept.push(c);
        }
        i += 1;
    }
    assert(chars@.take(i as int) =~= chars@);
    kept
}

/// The first word of a text, and what follows it. Both are empty where there is
/// no word.
pub open spec fn next_word(text: Seq<char>) -> (Seq<char>, Seq<char>) {
    let kept = trim_start_by(text, whitespace());
    let word = first_word(kept);
    (word, kept.skip(word.len() as int))
}

/// The first word of a text, and what follows it.
pub fn take_word(text: &str) -> (parts: (String, String))
    ensures
        (parts.0@, parts.1@) == next_word(text@),
{
    let chars = char_vec(text);
    let mut from: usize = 0;
    while from < chars.len() && is_space(chars[from])
        invariant
            from <= chars@.len(),
            forall|j: int| 0 <= j < from ==> is_whitespace(#[trigger] chars@[j]),
        decreases chars@.len() - from,
    {
        from += 1;
    }
    let mut to: usize = from;
    while to < chars.len() && !is_space(chars[to])
        invariant
            from <= to <= chars@.len(),
            forall|j: int| from <= j < to ==> !is_whitespace(#[trigger] chars@[j]),
        decreases chars@.len() - to,
    {
        to += 1;
    }
    proof {
        lemma_trim_start_is(chars@, whitespace(), from as int);
        let kept = chars@.skip(from as int);
        assert(forall|j: int| 0 <= j < kept.len() ==> #[trigger] kept[j] == chars@[from + j]);
        lemma_first_word_is(kept, to - from);
        assert(kept.take(to - from) =~= chars@.subrange(from as int, to as int));
        assert(kept.skip(to - from) =~= chars@.subrange(to as int, chars@.len() as int));
    }
    (string_range(&chars, from, to), string_range(&chars, to, chars.len()))
}

/// The control characters.
pub open spec fn is_control(c: char) -> bool {
    c <= '\u{1f}' || '\u{7f}' <= c <= '\u{9f}'
}

/// Holds of white space and of control characters.
pub open spec fn blank() -> spec_fn(char) -> bool {
    |c: char| is_whitespace(c) || is_control(c)
}

/// The text without white space and control characters at both ends.
pub open spec fn trim_blank(text: Seq<char>) -> Seq<char> {
    trim_end_by(trim_start_by(text, blank()), blank())
}

/// The text without white space and control characters at both ends.
pub fn trim_blank_text(text: &str) -> (trimmed: String)
    ensures
        trimmed@ == trim_blank(text@),
{
    let chars = char_vec(text);
    let mut from: usize = 0;
    while from < chars.len() && is_blank(chars[from])
        invariant
            from <= chars@.len(),
            forall|j: int|
                0 <= j < from ==> is_whitespace(#[trigger] chars@[j]) || is_control(chars@[j]),
        decreases chars@.len() - from,
    {
        from += 1;
    }
    proof {
        lemma_trim_start_is(chars@, blank(), from as int);
    }
    let mut to: usize = chars.len();
    while to > from && is_blank(chars[to - 1])
        invariant
            from <= to <= chars@.len(),
            forall|j: int|
                to <= j < chars@.len() ==> is_whitespace(#[trigger] chars@[j]) || is_control(
                    chars@[j],
                ),
        decreases to,
    {
        to -= 1;
    }
    proof {
        let rest = chars@.skip(from as int);
        assert(forall|j: int| 0 <= j < rest.len() ==> #[trigger] rest[j] == chars@[from + j]);
        lemma_trim_end_is(rest, blank(), to - from);
        assert(rest.take(to - from) =~= chars@.subrange(from as int, to as int));
    }
    string_range(&chars, from, to)
}

/// Whether `c` is white space or a control character.
pub fn is_blank(c: char) -> (yes: bool)
    ensures
        yes == (is_whitespace(c) || is_control(c)),
{
    is_space(c) || c <= '\u{1f}' || ('\u{7f}' <= c && c <= '\u{9f}')
}

/// The text without `dropped` at its beginning.
pub open spec fn trim_start_char(text: Seq<char>, dropped: char) -> Seq<char> {
    trim_start_by(text, only(dropped))
}

/// The text without `dropped` at its beginning.
pub fn trim_start_text(text: &str, dropped: char) -> (trimmed: String)
    ensures
        trimmed@ == trim_start_char(text@, dropped),
{
    let chars = char_vec(text);
    let mut from: usize = 0;
    while from < chars.len() && chars[from] == dropped
        invariant
            from <= chars@.len(),
            forall|j: int| 0 <= j < from ==> #[trigger] chars@[j] == dropped,
        decreases chars@.len() - from,
    {
        from += 1;
    }
    proof {
        lemma_trim_start_is(chars@, only(dropped), from as int);
        assert(chars@.skip(from as int) =~= chars@.subrange(from as int, chars@.len() as int));
    }
    string_range(&chars, from, chars.len())
}

// ---------------------------------------------------------------------------
// Splitting at a text
// ---------------------------------------------------------------------------

/// The pieces of `text` between the occurrences of `separator`, found from the
/// left.
pub open spec fn split_at_text(text: Seq<char>, separator: Seq<char>) -> Seq<Seq<char>>
    decreases text.len(),
    when separator.len() > 0
    via split_at_text_decreases
{
    match first_occurrence(text, separator) {
        None => seq![text],
        Some(at) => seq![text.take(at)] + split_at_text(
            text.skip(at + separator.len()),
            separator,
        ),
    }
}

#[via_fn]
proof fn split_at_text_decreases(text: Seq<char>, separator: Seq<char>) {
    lemma_first_occurrence(text, separator);
}

/// A text splits into at most one piece more than it has characters.
pub proof fn lemma_split_at_text_len(text: Seq<char>, separator: Seq<char>)
    requires
        separator.len() > 0,
    ensures
        1 <= split_at_text(text, separator).len() <= text.len() + 1,
    decreases text.len(),
{
    lemma_first_occurrence(text, separator);
    if let Some(at) = first_occurrence(text, separator) {
        lemma_split_at_text_len(text.skip(at + separator.len()), separator);
    }
}

/// Splits a text at every occurrence of `separator`.
pub fn split_text_at(text: &str, separator: &str) -> (pieces: Vec<String>)
    requires
        separator@.len() > 0,
    ensures
        texts(pieces@) == split_at_text(text@, separator@),
        pieces@.len() >= 1,
{
    let skipped: usize = char_vec(separator).len();
    let mut pieces: Vec<String> = Vec::new();
    let mut rest = text.to_owned();
    assert(texts(pieces@) + split_at_text(rest@, separator@) =~= split_at_text(
        text@,
        separator@,
    ));
    loop
        invariant
            skipped == separator@.len() > 0,
            texts(pieces@) + split_at_text(rest@, separator@) == split_at_text(
                text@,
                separator@,
            ),
        decreases rest@.len(),
    {
        let chars = char_vec(&rest);
        let total: usize = chars.len();
        let ghost before = texts(pieces@);
        let ghost whole = rest@;
        match find_text(&rest, separator) {
            None => {
                pieces.push(rest);
                assert(texts(pieces@) =~= before + seq![whole]);
                return pieces;
            },
            Some(at) => {
                let piece = string_range(&chars, 0, at);
                let ghost found = piece@;
                assert(found =~= whole.take(at as int));
                rest = string_range(&chars, at + skipped, total);
                assert(rest@ =~= whole.skip(at + skipped));
                pieces.push(piece);
                assert(texts(pieces@) + split_at_text(rest@, separator@) =~= before + (seq![found]
                    + split_at_text(rest@, separator@)));
            },
        }
    }
}

/// What stands before and after the first `separator`, where there is one.
pub open spec fn split_once_at(text: Seq<char>, separator: Seq<char>) -> Option<
    (Seq<char>, Seq<char>),
> {
    match first_occurrence(text, separator) {
        None => None,
        Some(at) => Some((text.take(at), text.skip(at + separator.len()))),
    }
}

/// Splits a text at the first `separator`.
pub fn split_text_once_at(text: &str, separator: &str) -> (halves: Option<(String, String)>)
    ensures
        match halves {
            Some((before, after)) => split_once_at(text@, separator@) == Some((before@, after@)),
            None => split_once_at(text@, separator@) is None,
        },
{
    let chars = char_vec(text);
    let total: usize = chars.len();
    match find_text(text, separator) {
        None => None,
        Some(at) => {
            let skipped: usize = char_vec(separator).len();
            let before = string_range(&chars, 0, at);
            let after = string_range(&chars, at + skipped, total);
            assert(before@ =~= text@.take(at as int));
            assert(after@ =~= text@.skip(at + skipped));
            Some((before, after))
        },
    }
}

// ---------------------------------------------------------------------------
// Lines
// ---------------------------------------------------------------------------

/// A line without the carriage return that ends it.
pub open spec fn strip_cr(line: Seq<char>) -> Seq<char> {
    if line.len() > 0 && line.last() == '\r' {
        line.drop_last()
    } else {
        line
    }
}

/// The lines of a text. A line ends in a line feed or in a carriage return and
/// a line feed; what follows the last line feed is a line where it is not
/// empty.
pub open spec fn lines(text: Seq<char>) -> Seq<Seq<char>> {
    let pieces = split(text, '\n');
    let ended = Seq::new(
        (pieces.len() - 1) as nat,
        |i: int| strip_cr(pieces[i]),
    );
    if pieces.last().len() == 0 {
        ended
    } else {
        ended.push(pieces.last())
    }
}

/// The lines of a text.
pub fn lines_of(text: &str) -> (found: Vec<String>)
    ensures
        texts(found@) == lines(text@),
{
    let pieces = split_text(text, '\n');
    let ghost parts = split(text@, '\n');
    let mut found: Vec<String> = Vec::new();
    let last: usize = pieces.len() - 1;
    let mut i: usize = 0;
    while i < last
        invariant
            i <= last,
            last == pieces@.len() - 1,
            parts == texts(pieces@),
            found@.len() == i,
            forall|j: int| 0 <= j < i ==> #[trigger] found@[j]@ == strip_cr(parts[j]),
        decreases last - i,
    {
        let chars = char_vec(&pieces[i]);
        assert(chars@ == parts[i as int]);
        if chars.len() > 0 && chars[chars.len() - 1] == '\r' {
            let line = string_range(&chars, 0, chars.len() - 1);
            assert(line@ =~= strip_cr(parts[i as int]));
            found.push(line);
        } else {
            let line = pieces[i].clone();
            assert(line@ == strip_cr(parts[i as int]));
            found.push(line);
        }
        i += 1;
    }
    if !pieces[last].as_str().is_empty() {
        found.push(pieces[last].clone());
    }
    assert(texts(found@) =~= lines(text@));
    found
}

// ---------------------------------------------------------------------------
// Character by character changes
// ---------------------------------------------------------------------------

/// `c` with the ASCII letters `a` to `z` made capital.
pub open spec fn ascii_upper(c: char) -> char {
    if 'a' <= c <= 'z' {
        (c as u32 - 32) as char
    } else {
        c
    }
}

/// `c` with the ASCII letters `A` to `Z` made small.
pub open spec fn ascii_lower(c: char) -> char {
    if 'A' <= c <= 'Z' {
        (c as u32 + 32) as char
    } else {
        c
    }
}

/// Makes the ASCII letters `a` to `z` capital.
pub fn upper_char(c: char) -> (upper: char)
    ensures
        upper == ascii_upper(c),
{
    if 'a' <= c && c <= 'z' {
        (c as u8 - 32) as char
    } else {
        c
    }
}

// ---------------------------------------------------------------------------
// Laws of texts
// ---------------------------------------------------------------------------

/// A text is cut at the first separator: what stands before it holds none, and
/// the two parts with the separator between them are the text.
pub proof fn cut_is_at_the_first_separator(text: Seq<char>, separator: char)
    ensures
        match split_once(text, separator) {
            Some((before, after)) => before + seq![separator] + after == text && !before.contains(
                separator,
            ),
            None => !text.contains(separator),
        },
{
    lemma_first_index(text, separator);
    let at = first_index(text, separator);
    if at < text.len() {
        assert(text.take(at) + seq![separator] + text.skip(at + 1) =~= text);
    }
}

/// Two parts with a separator between them are told apart again, where the first
/// holds none.
pub proof fn parts_are_told_apart(before: Seq<char>, after: Seq<char>, separator: char)
    requires
        !before.contains(separator),
    ensures
        split_once(before + seq![separator] + after, separator) == Some((before, after)),
{
    let text = before + seq![separator] + after;
    assert forall|j: int| 0 <= j < before.len() implies text[j] != separator by {
        assert(before.contains(before[j]));
    }
    lemma_first_index_is(text, separator, before.len() as int);
    assert(text.take(before.len() as int) =~= before);
    assert(text.skip(before.len() as int + 1) =~= after);
}

/// A text without the separator is not cut.
pub proof fn whole_text_is_not_cut(text: Seq<char>, separator: char)
    requires
        !text.contains(separator),
    ensures
        split_once(text, separator) is None,
        split(text, separator) == seq![text],
{
    lemma_first_index(text, separator);
    lemma_split_append(Seq::empty(), text, separator);
    assert(Seq::<char>::empty() + text =~= text);
    assert(split(Seq::<char>::empty(), separator) =~= seq![Seq::<char>::empty()]);
    assert(split(text, separator) =~= seq![text]);
}

/// The pieces on the two sides of a separator are the pieces of the sides.
pub proof fn sides_split_on_their_own(front: Seq<char>, tail: Seq<char>, separator: char)
    ensures
        split(front + seq![separator] + tail, separator) == split(front, separator) + split(
            tail,
            separator,
        ),
    decreases tail.len(),
{
    let whole = front + seq![separator] + tail;
    lemma_split_pieces(front, separator);
    lemma_split_pieces(tail, separator);
    if tail.len() == 0 {
        assert(whole.drop_last() =~= front);
        assert(whole.last() == separator);
        assert(split(whole, separator) =~= split(front, separator) + split(tail, separator));
    } else {
        let init = tail.drop_last();
        sides_split_on_their_own(front, init, separator);
        lemma_split_pieces(init, separator);
        assert(whole.drop_last() =~= front + seq![separator] + init);
        assert(whole.last() == tail.last());
        assert(split(whole, separator) =~= split(front, separator) + split(tail, separator));
    }
}

/// A text loses the white space around it and nothing else.
pub proof fn white_space_around_goes(front: Seq<char>, kept: Seq<char>, back: Seq<char>)
    requires
        forall|i: int| 0 <= i < front.len() ==> is_whitespace(#[trigger] front[i]),
        forall|i: int| 0 <= i < back.len() ==> is_whitespace(#[trigger] back[i]),
        kept.len() > 0 ==> !is_whitespace(kept[0]) && !is_whitespace(kept.last()),
    ensures
        trim(front + kept + back) == kept,
{
    let text = front + kept + back;
    let drop = whitespace();
    if kept.len() == 0 {
        assert forall|j: int| 0 <= j < text.len() implies drop(#[trigger] text[j]) by {
            if j < front.len() {
                assert(text[j] == front[j]);
            } else {
                assert(text[j] == back[j - front.len()]);
            }
        }
        lemma_trim_start_is(text, drop, text.len() as int);
        assert(text.skip(text.len() as int) =~= kept);
        assert(trim_end_by(kept, drop) =~= kept);
    } else {
        assert forall|j: int| 0 <= j < front.len() implies drop(#[trigger] text[j]) by {
            assert(text[j] == front[j]);
        }
        assert(text[front.len() as int] == kept[0]);
        lemma_trim_start_is(text, drop, front.len() as int);
        let rest = text.skip(front.len() as int);
        assert(rest =~= kept + back);
        assert forall|j: int| kept.len() <= j < rest.len() implies drop(#[trigger] rest[j]) by {
            assert(rest[j] == back[j - kept.len()]);
        }
        assert(rest[kept.len() - 1] == kept.last());
        lemma_trim_end_is(rest, drop, kept.len() as int);
        assert(rest.take(kept.len() as int) =~= kept);
    }
}

/// What is left of a trimmed text neither begins nor ends with white space, and
/// all that went is white space.
pub proof fn trimmed_text_stands_in_the_text(text: Seq<char>)
    ensures
        trim(text).len() > 0 ==> !is_whitespace(trim(text)[0]) && !is_whitespace(trim(text).last()),
        exists|from: int|
            0 <= from <= from + trim(text).len() <= text.len() && #[trigger] text.subrange(
                from,
                from + trim(text).len(),
            ) == trim(text),
        trim(text).len() == 0 ==> forall|i: int|
            0 <= i < text.len() ==> is_whitespace(#[trigger] text[i]),
{
    lemma_trimmed_start(text);
    let rest = trim_start_by(text, whitespace());
    let from = choose|from: int|
        0 <= from <= text.len() && #[trigger] text.skip(from) == rest && (forall|i: int|
            0 <= i < from ==> is_whitespace(#[trigger] text[i])) && (rest.len() > 0
            ==> !is_whitespace(rest[0]));
    lemma_trimmed_end(rest);
    let to = choose|to: int|
        0 <= to <= rest.len() && #[trigger] rest.take(to) == trim(text) && (forall|i: int|
            to <= i < rest.len() ==> is_whitespace(#[trigger] rest[i])) && (to > 0
            ==> !is_whitespace(rest[to - 1]));
    assert(text.subrange(from, from + to) =~= rest.take(to));
    assert(trim(text).len() == to);
    if to == 0 {
        if rest.len() > 0 {
            assert(is_whitespace(rest[0]));
        }
    }
}

proof fn lemma_trimmed_start(text: Seq<char>)
    ensures
        exists|from: int|
            0 <= from <= text.len() && #[trigger] text.skip(from) == trim_start_by(
                text,
                whitespace(),
            ) && (forall|i: int| 0 <= i < from ==> is_whitespace(#[trigger] text[i])) && (
            trim_start_by(text, whitespace()).len() > 0 ==> !is_whitespace(
                trim_start_by(text, whitespace())[0],
            )),
    decreases text.len(),
{
    if text.len() > 0 && is_whitespace(text[0]) {
        let tail = text.skip(1);
        lemma_trimmed_start(tail);
        let from = choose|from: int|
            0 <= from <= tail.len() && #[trigger] tail.skip(from) == trim_start_by(
                tail,
                whitespace(),
            ) && (forall|i: int| 0 <= i < from ==> is_whitespace(#[trigger] tail[i])) && (
            trim_start_by(tail, whitespace()).len() > 0 ==> !is_whitespace(
                trim_start_by(tail, whitespace())[0],
            ));
        assert(text.skip(from + 1) =~= tail.skip(from));
        assert forall|i: int| 0 <= i < from + 1 implies is_whitespace(#[trigger] text[i]) by {
            if i > 0 {
                assert(text[i] == tail[i - 1]);
            }
        }
    } else {
        assert(text.skip(0) =~= text);
    }
}

proof fn lemma_trimmed_end(text: Seq<char>)
    ensures
        exists|to: int|
            0 <= to <= text.len() && #[trigger] text.take(to) == trim_end_by(text, whitespace())
                && (forall|i: int| to <= i < text.len() ==> is_whitespace(#[trigger] text[i])) && (
            to > 0 ==> !is_whitespace(text[to - 1])),
    decreases text.len(),
{
    if text.len() > 0 && is_whitespace(text.last()) {
        let init = text.drop_last();
        lemma_trimmed_end(init);
        let to = choose|to: int|
            0 <= to <= init.len() && #[trigger] init.take(to) == trim_end_by(init, whitespace())
                && (forall|i: int| to <= i < init.len() ==> is_whitespace(#[trigger] init[i])) && (
            to > 0 ==> !is_whitespace(init[to - 1]));
        assert(text.take(to) =~= init.take(to));
        assert forall|i: int| to <= i < text.len() implies is_whitespace(#[trigger] text[i]) by {
            if i < init.len() {
                assert(text[i] == init[i]);
            }
        }
    } else {
        assert(text.take(text.len() as int) =~= text);
    }
}

/// A line that ends is a line, without the carriage return before its end, and
/// the rest has its lines; a last line without an end is a line where it is not
/// empty.
pub proof fn lines_follow_each_other(line: Seq<char>, rest: Seq<char>)
    requires
        !line.contains('\n'),
    ensures
        lines(line + seq!['\n'] + rest) == seq![
            if line.len() > 0 && line.last() == '\r' {
                line.drop_last()
            } else {
                line
            },
        ] + lines(rest),
        lines(line) == (if line.len() == 0 {
            Seq::<Seq<char>>::empty()
        } else {
            seq![line]
        }),
{
    sides_split_on_their_own(line, rest, '\n');
    whole_text_is_not_cut(line, '\n');
    lemma_split_pieces(rest, '\n');
    let whole = line + seq!['\n'] + rest;
    let pieces = split(whole, '\n');
    assert(pieces =~= seq![line] + split(rest, '\n'));
    assert(pieces.last() == split(rest, '\n').last());
    assert(lines(whole) =~= seq![strip_cr(line)] + lines(rest));
    assert(lines(line) =~= (if line.len() == 0 {
        Seq::<Seq<char>>::empty()
    } else {
        seq![line]
    }));
}

/// The next word is what stands before the next white space, and what follows is
/// the rest.
pub proof fn words_follow_each_other(front: Seq<char>, word: Seq<char>, rest: Seq<char>)
    requires
        forall|i: int| 0 <= i < front.len() ==> is_whitespace(#[trigger] front[i]),
        forall|i: int| 0 <= i < word.len() ==> !is_whitespace(#[trigger] word[i]),
        word.len() > 0,
        rest.len() > 0 ==> is_whitespace(rest[0]),
    ensures
        next_word(front + word + rest) == (word, rest),
        first_word(word + rest) == word,
{
    let text = front + word + rest;
    assert forall|j: int| 0 <= j < front.len() implies whitespace()(#[trigger] text[j]) by {
        assert(text[j] == front[j]);
    }
    assert(text[front.len() as int] == word[0]);
    lemma_trim_start_is(text, whitespace(), front.len() as int);
    let kept = text.skip(front.len() as int);
    assert(kept =~= word + rest);
    assert forall|j: int| 0 <= j < word.len() implies !is_whitespace(#[trigger] kept[j]) by {
        assert(kept[j] == word[j]);
    }
    lemma_first_word_is(kept, word.len() as int);
    assert(kept.take(word.len() as int) =~= word);
    assert(kept.skip(word.len() as int) =~= rest);
}

/// The characters that are not white space are kept, in order.
pub proof fn only_white_space_is_removed(front: Seq<char>, back: Seq<char>)
    ensures
        without_whitespace(front + back) == without_whitespace(front) + without_whitespace(back),
        (forall|i: int| 0 <= i < front.len() ==> is_whitespace(#[trigger] front[i]))
            ==> without_whitespace(front) == Seq::<char>::empty(),
        (forall|i: int| 0 <= i < front.len() ==> !is_whitespace(#[trigger] front[i]))
            ==> without_whitespace(front) == front,
    decreases back.len(), front.len(),
{
    reveal(Seq::filter);
    if back.len() == 0 {
        assert(front + back =~= front);
        assert(without_whitespace(front) + without_whitespace(back) =~= without_whitespace(front));
    } else {
        assert((front + back).drop_last() =~= front + back.drop_last());
        only_white_space_is_removed(front, back.drop_last());
        assert(without_whitespace(front + back) =~= without_whitespace(front)
            + without_whitespace(back));
    }
    if back.len() == 0 && front.len() > 0 {
        let init = front.drop_last();
        only_white_space_is_removed(init, Seq::empty());
        if forall|i: int| 0 <= i < front.len() ==> is_whitespace(#[trigger] front[i]) {
            assert forall|i: int| 0 <= i < init.len() implies is_whitespace(#[trigger] init[i]) by {
                assert(init[i] == front[i]);
            }
            assert(is_whitespace(front[front.len() - 1]));
        }
        if forall|i: int| 0 <= i < front.len() ==> !is_whitespace(#[trigger] front[i]) {
            assert forall|i: int| 0 <= i < init.len() implies !is_whitespace(
                #[trigger] init[i],
            ) by {
                assert(init[i] == front[i]);
            }
            assert(!is_whitespace(front[front.len() - 1]));
            assert(init.push(front.last()) =~= front);
        }
    }
}

/// The separator at the ends is taken off, and nothing else.
pub proof fn marks_around_go(text: Seq<char>, mark: char)
    requires
        text.len() > 0 ==> text[0] != mark && text.last() != mark,
    ensures
        trim_char(seq![mark] + text + seq![mark], mark) == text,
        trim_end_char(text + seq![mark], mark) == text,
        trim_end_char(text, mark) == text,
        trim_start_char(seq![mark] + text, mark) == text,
        trim_start_char(text, mark) == text,
{
    let drop = only(mark);
    let both = seq![mark] + text + seq![mark];
    if text.len() == 0 {
        lemma_trim_start_is(both, drop, 2);
        assert(both.skip(2) =~= text);
        lemma_trim_end_is(text + seq![mark], drop, 0);
        assert((text + seq![mark]).take(0) =~= text);
        lemma_trim_start_is(seq![mark] + text, drop, 1);
        assert((seq![mark] + text).skip(1) =~= text);
    } else {
        lemma_trim_start_is(both, drop, 1);
        let rest = both.skip(1);
        assert(rest =~= text + seq![mark]);
        assert(rest[text.len() - 1] == text.last());
        lemma_trim_end_is(rest, drop, text.len() as int);
        assert(rest.take(text.len() as int) =~= text);
        lemma_trim_start_is(seq![mark] + text, drop, 1);
        assert((seq![mark] + text).skip(1) =~= text);
    }
}

proof fn lemma_trim_end_keeps_first(text: Seq<char>, drop: spec_fn(char) -> bool)
    requires
        text.len() > 0,
        !drop(text[0]),
    ensures
        trim_end_by(text, drop).len() > 0,
        trim_end_by(text, drop)[0] == text[0],
    decreases text.len(),
{
    if drop(text.last()) {
        assert(text.drop_last()[0] == text[0]);
        lemma_trim_end_keeps_first(text.drop_last(), drop);
    }
}

/// A trimmed text begins with its first character that is not white space.
pub proof fn first_mark_stays_first(front: Seq<char>, mark: char, rest: Seq<char>)
    requires
        forall|i: int| 0 <= i < front.len() ==> is_whitespace(#[trigger] front[i]),
        !is_whitespace(mark),
    ensures
        trim(front + seq![mark] + rest).len() > 0,
        trim(front + seq![mark] + rest)[0] == mark,
{
    let text = front + seq![mark] + rest;
    assert forall|j: int| 0 <= j < front.len() implies whitespace()(#[trigger] text[j]) by {
        assert(text[j] == front[j]);
    }
    lemma_trim_start_is(text, whitespace(), front.len() as int);
    assert(text.skip(front.len() as int)[0] == mark);
    lemma_trim_end_keeps_first(text.skip(front.len() as int), whitespace());
}

/// Pieces are joined in order, with the separator between each two and nowhere
/// else.
pub proof fn pieces_are_joined_in_order(pieces: Seq<Seq<char>>, piece: Seq<char>, separator: Seq<char>)
    ensures
        join(Seq::empty(), separator).len() == 0,
        join(seq![piece], separator) == piece,
        pieces.len() > 0 ==> join(pieces.push(piece), separator) == join(pieces, separator)
            + separator + piece,
{
    assert(pieces.push(piece).drop_last() =~= pieces);
}

/// A text is cut where the separator first stands, into what comes before it and
/// what comes after; without a separator it stays whole.
pub proof fn separator_cuts_the_text(before: Seq<char>, separator: Seq<char>, after: Seq<char>)
    requires
        separator.len() > 0,
        forall|j: int|
            0 <= j < before.len() ==> !(#[trigger] occurs_at(
                before + separator + after,
                separator,
                j,
            )),
    ensures
        split_once_at(before + separator + after, separator) == Some((before, after)),
        split_at_text(before + separator + after, separator) == seq![before] + split_at_text(
            after,
            separator,
        ),
{
    let text = before + separator + after;
    lemma_first_occurrence(text, separator);
    assert(text.subrange(before.len() as int, before.len() + separator.len() as int)
        =~= separator);
    assert(occurs_at(text, separator, before.len() as int));
    assert(first_occurrence(text, separator) == Some(before.len() as int));
    assert(text.take(before.len() as int) =~= before);
    assert(text.skip(before.len() + separator.len() as int) =~= after);
}

/// A text in which the separator does not stand stays whole.
pub proof fn text_without_the_separator_stays(text: Seq<char>, separator: Seq<char>)
    requires
        separator.len() > 0,
        forall|j: int| !(#[trigger] occurs_at(text, separator, j)),
    ensures
        split_once_at(text, separator) is None,
        split_at_text(text, separator) == seq![text],
{
    lemma_first_occurrence(text, separator);
}

/// White space and control characters around a text go, and the rest stays as it
/// is.
pub proof fn blanks_around_go(front: Seq<char>, kept: Seq<char>, back: Seq<char>)
    requires
        forall|i: int|
            0 <= i < front.len() ==> is_whitespace(#[trigger] front[i]) || is_control(front[i]),
        forall|i: int|
            0 <= i < back.len() ==> is_whitespace(#[trigger] back[i]) || is_control(back[i]),
        kept.len() > 0,
        !is_whitespace(kept[0]) && !is_control(kept[0]),
        !is_whitespace(kept.last()) && !is_control(kept.last()),
    ensures
        trim_blank(front + kept + back) == kept,
{
    let text = front + kept + back;
    let drop = blank();
    assert forall|j: int| 0 <= j < front.len() implies drop(#[trigger] text[j]) by {
        assert(text[j] == front[j]);
    }
    assert(text[front.len() as int] == kept[0]);
    lemma_trim_start_is(text, drop, front.len() as int);
    let rest = text.skip(front.len() as int);
    assert(rest =~= kept + back);
    assert forall|j: int| kept.len() <= j < rest.len() implies drop(#[trigger] rest[j]) by {
        assert(rest[j] == back[j - kept.len()]);
    }
    assert(rest[kept.len() - 1] == kept.last());
    lemma_trim_end_is(rest, drop, kept.len() as int);
    assert(rest.take(kept.len() as int) =~= kept);
}

/// A text starts with what stands at its front, ends with what stands at its
/// back, and with nothing else.
pub proof fn ends_are_what_stands_there(part: Seq<char>, rest: Seq<char>, text: Seq<char>)
    ensures
        starts_with(part + rest, part),
        ends_with(rest + part, part),
        starts_with(text, part) ==> text == part + text.skip(part.len() as int),
        ends_with(text, part) ==> text == text.take(text.len() - part.len()) + part,
        text.len() < part.len() ==> !starts_with(text, part) && !ends_with(text, part),
{
    assert((part + rest).take(part.len() as int) =~= part);
    assert((rest + part).skip(rest.len() as int) =~= part);
    if starts_with(text, part) {
        assert(text =~= part + text.skip(part.len() as int));
    }
    if ends_with(text, part) {
        assert(text =~= text.take(text.len() - part.len()) + part);
    }
}

/// All the marks around a text go, however many there are.
pub proof fn repeated_marks_around_go(
    front: Seq<char>,
    text: Seq<char>,
    back: Seq<char>,
    mark: char,
)
    requires
        forall|i: int| 0 <= i < front.len() ==> #[trigger] front[i] == mark,
        forall|i: int| 0 <= i < back.len() ==> #[trigger] back[i] == mark,
        text.len() > 0,
        text[0] != mark,
        text.last() != mark,
    ensures
        trim_char(front + text + back, mark) == text,
        trim_end_char(text + back, mark) == text,
        trim_start_char(front + text, mark) == text,
{
    let drop = only(mark);
    let whole = front + text + back;
    let rest = text + back;
    assert forall|j: int| 0 <= j < front.len() implies drop(#[trigger] whole[j]) by {
        assert(whole[j] == front[j]);
    }
    assert(whole[front.len() as int] == text[0]);
    lemma_trim_start_is(whole, drop, front.len() as int);
    assert(whole.skip(front.len() as int) =~= rest);
    assert forall|j: int| text.len() <= j < rest.len() implies drop(#[trigger] rest[j]) by {
        assert(rest[j] == back[j - text.len()]);
    }
    assert(rest[text.len() - 1] == text.last());
    lemma_trim_end_is(rest, drop, text.len() as int);
    assert(rest.take(text.len() as int) =~= text);
    let begun = front + text;
    assert forall|j: int| 0 <= j < front.len() implies drop(#[trigger] begun[j]) by {
        assert(begun[j] == front[j]);
    }
    assert(begun[front.len() as int] == text[0]);
    lemma_trim_start_is(begun, drop, front.len() as int);
    assert(begun.skip(front.len() as int) =~= text);
}

/// White space and control characters by their code points.
pub proof fn blank_code_points(c: char)
    ensures
        is_whitespace(c) <==> {
            let code = c as u32;
            9 <= code <= 13 || code == 32 || code == 133 || code == 160 || code == 5760 || 8192
                <= code <= 8202 || code == 8232 || code == 8233 || code == 8239 || code == 8287
                || code == 12288
        },
        is_control(c) <==> (c as u32) < 32 || 127 <= c as u32 <= 159,
{
}

/// Capital and small letters change into each other; no other character changes.
pub proof fn letters_change_case(c: char)
    ensures
        'a' <= c <= 'z' ==> 'A' <= ascii_upper(c) <= 'Z' && ascii_lower(ascii_upper(c)) == c
            && ascii_lower(c) == c,
        'A' <= c <= 'Z' ==> 'a' <= ascii_lower(c) <= 'z' && ascii_upper(ascii_lower(c)) == c
            && ascii_upper(c) == c,
        'a' <= c <= 'z' ==> ascii_upper(c) as int - 'A' as int == c as int - 'a' as int,
        !('a' <= c <= 'z') && !('A' <= c <= 'Z') ==> ascii_upper(c) == c && ascii_lower(c) == c,
{
}

/// The marks in front of a text go, whatever it ends with.
pub proof fn marks_before_go(front: Seq<char>, text: Seq<char>, mark: char)
    requires
        forall|i: int| 0 <= i < front.len() ==> #[trigger] front[i] == mark,
        text.len() > 0,
        text[0] != mark,
    ensures
        trim_start_char(front + text, mark) == text,
{
    let drop = only(mark);
    let whole = front + text;
    assert forall|j: int| 0 <= j < front.len() implies drop(#[trigger] whole[j]) by {
        assert(whole[j] == front[j]);
    }
    assert(whole[front.len() as int] == text[0]);
    lemma_trim_start_is(whole, drop, front.len() as int);
    assert(whole.skip(front.len() as int) =~= text);
}

/// A prefix is taken off where it stands, and the rest is left; where it does not
/// stand, nothing is.
pub proof fn prefix_is_taken_off(prefix: Seq<char>, rest: Seq<char>, text: Seq<char>)
    ensures
        strip_prefix(prefix + rest, prefix) == Some(rest),
        strip_prefix(text, prefix) matches Some(left) ==> text == prefix + left,
        strip_prefix(text, prefix) is None ==> text != prefix + rest,
{
    assert((prefix + rest).take(prefix.len() as int) =~= prefix);
    assert((prefix + rest).skip(prefix.len() as int) =~= rest);
    if starts_with(text, prefix) {
        assert(text =~= prefix + text.skip(prefix.len() as int));
    }
}

/// Strings are told by their characters, one by one and in order, and none where
/// there is none.
pub proof fn strings_are_told_by_their_characters(
    strings: Seq<String>,
    pairs: Seq<(String, String)>,
    string: String,
    i: int,
)
    ensures
        texts(strings).len() == strings.len(),
        0 <= i < strings.len() ==> texts(strings)[i] == strings[i]@,
        text_pairs(pairs).len() == pairs.len(),
        0 <= i < pairs.len() ==> text_pairs(pairs)[i] == (pairs[i].0@, pairs[i].1@),
        opt_text(Some(string)) == Some(string@),
        opt_text(None) is None,
{
}

} // verus!
