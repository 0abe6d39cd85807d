//! Text as a sequence of characters: comparing, cutting, joining and changing case.

use vstd::prelude::*;

verus! {

/// `<str as PartialEq>::eq`: two string slices are equal exactly when they hold the same
/// characters in the same order.
pub assume_specification[ <str as PartialEq>::eq ](left: &str, right: &str) -> (equal: bool)
    ensures
        equal == (left@ == right@),
;

/// `String::push`: appends the character to the end of the string.
pub assume_specification[ String::push ](text: &mut String, character: char)
    ensures
        final(text)@ == old(text)@.push(character),
;

/// `<String as From<&str>>::from`: a string with the text of the slice.
pub assume_specification<'a>[ <String as From<&'a str>>::from ](s: &str) -> (text: String)
    ensures
        text@ == s@,
;

/// `From::from` from a type to itself: hands back what it is given.
pub assume_specification<Kept>[ <Kept as std::convert::From<Kept>>::from ](kept: Kept) -> (same:
    Kept)
    ensures
        same == kept,
;

/// Whether two texts are the same.
pub(crate) fn same_text(left: &str, right: &str) -> (same: bool)
    ensures
        same == (left@ == right@),
{
    *left == *right
}

/// A text that may be absent.
pub open spec fn view_of_text(text: Option<String>) -> Option<Seq<char>> {
    match text {
        Some(text) => Some(text@),
        None => None,
    }
}

/// Bytes that may be absent.
pub open spec fn view_of_bytes(bytes: Option<Vec<u8>>) -> Option<Seq<u8>> {
    match bytes {
        Some(bytes) => Some(bytes@),
        None => None,
    }
}

/// The texts that a sequence of strings holds.
pub open spec fn texts(strings: Seq<String>) -> Seq<Seq<char>> {
    strings.map_values(|string: String| string@)
}

/// The characters of a text, one by one.
pub(crate) fn characters(text: &str) -> (characters: Vec<char>)
    ensures
        characters@ == text@,
{
    let mut out: Vec<char> = Vec::new();
    for c in it: text.chars()
        invariant
            it.seq() == text@,
            out@ == text@.take(it.index() as int),
    {
        out.push(c);
        assert(text@.take(it.index() + 1) =~= text@.take(it.index() as int).push(c));
    }
    assert(text@.take(text@.len() as int) =~= text@);
    out
}

/// The text that a part of a sequence of characters makes.
pub(crate) fn text_between(characters: &Vec<char>, from: usize, to: usize) -> (text: String)
    requires
        from <= to <= characters@.len(),
    ensures
        text@ == characters@.subrange(from as int, to as int),
{
    let mut out = String::new();
    let mut i: usize = from;
    while i < to
        invariant
            from <= i <= to <= characters@.len(),
            out@ == characters@.subrange(from as int, i as int),
        decreases to - i,
    {
        out.push(characters[i]);
        i = i + 1;
        assert(characters@.subrange(from as int, i as int) =~= characters@.subrange(
            from as int,
            i - 1,
        ).push(characters@[i - 1]));
    }
    out
}

/// The ASCII capital letter of a small one, and any other character as it is.
pub open spec fn upper(c: char) -> char {
    if 'a' <= c && c <= 'z' {
        (c as u8 - 32) as char
    } else {
        c
    }
}

/// The ASCII small letter of a capital one, and any other character as it is.
pub open spec fn lower(c: char) -> char {
    if 'A' <= c && c <= 'Z' {
        (c as u8 + 32) as char
    } else {
        c
    }
}

/// A text with its ASCII letters made capital.
pub open spec fn upper_text(text: Seq<char>) -> Seq<char> {
    text.map_values(|c: char| upper(c))
}

/// A text with its ASCII letters made small.
pub open spec fn lower_text(text: Seq<char>) -> Seq<char> {
    text.map_values(|c: char| lower(c))
}

/// Makes the ASCII letters of a text capital.
pub(crate) fn to_upper(text: &str) -> (upper: String)
    ensures
        upper@ == upper_text(text@),
{
    let mut out = String::new();
    for c in it: text.chars()
        invariant
            it.seq() == text@,
            out@ == upper_text(text@.take(it.index() as int)),
    {
        let changed: char = if 'a' <= c && c <= 'z' {
            (c as u8 - 32) as char
        } else {
            c
        };
        out.push(changed);
        assert(upper_text(text@.take(it.index() + 1)) =~= upper_text(
            text@.take(it.index() as int),
        ).push(changed));
    }
    assert(text@.take(text@.len() as int) =~= text@);
    out
}

/// Makes the ASCII letters of a text small.
pub(crate) fn to_lower(text: &str) -> (lower: String)
    ensures
        lower@ == lower_text(text@),
{
    let mut out = String::new();
    for c in it: text.chars()
        invariant
            it.seq() == text@,
            out@ == lower_text(text@.take(it.index() as int)),
    {
        let changed: char = if 'A' <= c && c <= 'Z' {
            (c as u8 + 32) as char
        } else {
            c
        };
        out.push(changed);
        assert(lower_text(text@.take(it.index() + 1)) =~= lower_text(
            text@.take(it.index() as int),
        ).push(changed));
    }
    assert(text@.take(text@.len() as int) =~= text@);
    out
}

/// Whether a character has the Unicode property White_Space.
pub open spec fn is_white(c: char) -> bool {
    ||| 0x9 <= c as u32 <= 0xd
    ||| c as u32 == 0x20
    ||| c as u32 == 0x85
    ||| c as u32 == 0xa0
    ||| c as u32 == 0x1680
    ||| 0x2000 <= c as u32 <= 0x200a
    ||| c as u32 == 0x2028
    ||| c as u32 == 0x2029
    ||| c as u32 == 0x202f
    ||| c as u32 == 0x205f
    ||| c as u32 == 0x3000
}

/// Tells whether a character is white space.
pub(crate) fn white(c: char) -> (yes: bool)
    ensures
        yes == is_white(c),
{
    let code: u32 = c as u32;
    (0x9 <= code && code <= 0xd) || code == 0x20 || code == 0x85 || code == 0xa0 || code == 0x1680
        || (0x2000 <= code && code <= 0x200a) || code == 0x2028 || code == 0x2029 || code == 0x202f
        || code == 0x205f || code == 0x3000
}

/// A text without the white space before and after it.
pub open spec fn trimmed(text: Seq<char>) -> Seq<char>
    decreases text.len(),
{
    if text.len() == 0 {
        text
    } else if is_white(text.first()) {
        trimmed(text.drop_first())
    } else if is_white(text.last()) {
        trimmed(text.drop_last())
    } else {
        text
    }
}

/// Removes the white space before and after a text.
pub(crate) fn trim(text: &str) -> (inner: String)
    ensures
        inner@ == trimmed(text@),
{
    let all: Vec<char> = characters(text);
    let mut from: usize = 0;
    let mut to: usize = all.len();
    assert(all@.subrange(0, all@.len() as int) =~= all@);
    while from < to && white(all[from])
        invariant
            from <= to == all@.len(),
            trimmed(all@.subrange(from as int, to as int)) == trimmed(text@),
        decreases to - from,
    {
        assert(all@.subrange(from as int, to as int).drop_first() =~= all@.subrange(
            from + 1,
            to as int,
        ));
        from = from + 1;
    }
    while from < to && white(all[to - 1])
        invariant
            from <= to <= all@.len(),
            from < to ==> !is_white(all@[from as int]),
            trimmed(all@.subrange(from as int, to as int)) == trimmed(text@),
        decreases to - from,
    {
        assert(all@.subrange(from as int, to as int).drop_last() =~= all@.subrange(
            from as int,
            to - 1,
        ));
        to = to - 1;
    }
    text_between(&all, from, to)
}

/// The pieces between the separators of a text: one more than there are separators.
pub open spec fn split(text: Seq<char>, separator: char) -> Seq<Seq<char>>
    decreases text.len(),
{
    if text.len() == 0 {
        seq![Seq::<char>::empty()]
    } else {
        let before = split(text.drop_last(), separator);
        if text.last() == separator {
            before.push(Seq::<char>::empty())
        } else {
            before.drop_last().push(before.last().push(text.last()))
        }
    }
}

/// Splits a text at each separator.
pub(crate) fn pieces(text: &str, separator: char) -> (pieces: Vec<String>)
    ensures
        texts(pieces@) == split(text@, separator),
        pieces@.len() > 0,
{
    let mut done: Vec<String> = Vec::new();
    let mut current = String::new();
    assert(texts(done@).push(current@) =~= seq![Seq::<char>::empty()]);
    for c in it: text.chars()
        invariant
            it.seq() == text@,
            texts(done@).push(current@) == split(text@.take(it.index() as int), separator),
    {
        let ghost before = texts(done@).push(current@);
        let ghost prefix = text@.take(it.index() + 1);
        assert(prefix.drop_last() =~= text@.take(it.index() as int));
        assert(before.drop_last() =~= texts(done@));
        if c == separator {
            done.push(current);
            current = String::new();
            assert(texts(done@).push(current@) =~= before.push(Seq::<char>::empty()));
        } else {
            current.push(c);
            assert(texts(done@).push(current@) =~= before.drop_last().push(before.last().push(c)));
        }
    }
    assert(text@.take(text@.len() as int) =~= text@);
    let ghost whole = texts(done@).push(current@);
    done.push(current);
    assert(texts(done@) =~= whole);
    done
}

/// The pieces put together again, with a separator between each and the next.
pub open spec fn joined(pieces: Seq<Seq<char>>, separator: char) -> Seq<char>
    decreases pieces.len(),
{
    if pieces.len() == 0 {
        Seq::empty()
    } else if pieces.len() == 1 {
        pieces[0]
    } else {
        joined(pieces.drop_last(), separator).push(separator) + pieces.last()
    }
}

/// Puts pieces together, with a separator between each and the next.
pub(crate) fn join(pieces: &Vec<String>, separator: char) -> (text: String)
    ensures
        text@ == joined(texts(pieces@), separator),
{
    let mut out = String::new();
    let mut i: usize = 0;
    assert(texts(pieces@).take(0) =~= Seq::<Seq<char>>::empty());
    while i < pieces.len()
        invariant
            i <= pieces@.len(),
            out@ == joined(texts(pieces@).take(i as int), separator),
        decreases pieces@.len() - i,
    {
        let ghost next = texts(pieces@).take(i + 1);
        assert(next.drop_last() =~= texts(pieces@).take(i as int));
        if i > 0 {
            out.push(separator);
        }
        out.append(pieces[i].as_str());
        assert(out@ =~= joined(next, separator));
        i = i + 1;
    }
    assert(texts(pieces@).take(pieces@.len() as int) =~= texts(pieces@));
    out
}

/// Whether a character occurs in a text.
pub open spec fn holds(text: Seq<char>, character: char) -> bool {
    exists|i: int| 0 <= i < text.len() && text[i] == character
}

/// The pieces of a text hold no separator, and no character that the text does not hold.
pub proof fn lemma_split_pieces(text: Seq<char>, separator: char, i: int, k: int)
    requires
        0 <= i < split(text, separator).len(),
        0 <= k < split(text, separator)[i].len(),
    ensures
        split(text, separator)[i][k] != separator,
        holds(text, split(text, separator)[i][k]),
    decreases text.len(),
{
    lemma_split_nonempty(text, separator);
    if text.len() > 0 {
        let before = split(text.drop_last(), separator);
        lemma_split_nonempty(text.drop_last(), separator);
        let c = split(text, separator)[i][k];
        if i < before.len() - 1 || (i == before.len() - 1 && k < before.last().len()) {
            lemma_split_pieces(text.drop_last(), separator, i, k);
            let j = choose|j: int|
                0 <= j < text.drop_last().len() && text.drop_last()[j] == c;
            assert(text[j] == c);
        } else {
            assert(text[text.len() - 1] == c);
        }
    }
}

/// A text has at least one piece.
pub proof fn lemma_split_nonempty(text: Seq<char>, separator: char)
    ensures
        split(text, separator).len() > 0,
    decreases text.len(),
{
    if text.len() > 0 {
        lemma_split_nonempty(text.drop_last(), separator);
    }
}

/// A text without separators is its only piece.
pub proof fn lemma_split_plain(text: Seq<char>, separator: char)
    requires
        !holds(text, separator),
    ensures
        split(text, separator) == seq![text],
    decreases text.len(),
{
    if text.len() > 0 {
        assert forall|i: int| 0 <= i < text.drop_last().len() implies text.drop_last()[i]
            != separator by {
            assert(text[i] != separator);
        }
        lemma_split_plain(text.drop_last(), separator);
        assert(text[text.len() - 1] != separator);
        assert(split(text, separator) =~= seq![text.drop_last().push(text.last())]);
        assert(text.drop_last().push(text.last()) =~= text);
    } else {
        assert(text =~= Seq::<char>::empty());
    }
}

/// What stands behind the last separator is the last piece.
pub proof fn lemma_split_last(before: Seq<char>, last: Seq<char>, separator: char)
    requires
        !holds(last, separator),
    ensures
        split(before.push(separator) + last, separator) == split(before, separator).push(last),
    decreases last.len(),
{
    let text = before.push(separator) + last;
    if last.len() == 0 {
        assert(text.drop_last() =~= before);
        assert(last =~= Seq::<char>::empty());
    } else {
        assert forall|i: int| 0 <= i < last.drop_last().len() implies last.drop_last()[i]
            != separator by {
            assert(last[i] != separator);
        }
        lemma_split_last(before, last.drop_last(), separator);
        assert(last[last.len() - 1] != separator);
        assert(text.drop_last() =~= before.push(separator) + last.drop_last());
        assert(last.drop_last().push(last.last()) =~= last);
        assert(split(text, separator) =~= split(before, separator).push(last));
    }
}

/// Splitting gives back the pieces that were joined, where there is one and none holds the
/// separator.
pub proof fn lemma_split_joined(pieces: Seq<Seq<char>>, separator: char)
    requires
        pieces.len() > 0,
        forall|i: int| 0 <= i < pieces.len() ==> !holds(#[trigger] pieces[i], separator),
    ensures
        split(joined(pieces, separator), separator) == pieces,
    decreases pieces.len(),
{
    if pieces.len() == 1 {
        lemma_split_plain(pieces[0], separator);
        assert(pieces =~= seq![pieces[0]]);
    } else {
        let before = pieces.drop_last();
        assert forall|i: int| 0 <= i < before.len() implies !holds(
            #[trigger] before[i],
            separator,
        ) by {
            assert(before[i] == pieces[i]);
        }
        lemma_split_joined(before, separator);
        lemma_split_last(joined(before, separator), pieces.last(), separator);
        assert(before.push(pieces.last()) =~= pieces);
    }
}

/// Joining gives back the text that was split.
pub proof fn lemma_joined_split(text: Seq<char>, separator: char)
    ensures
        joined(split(text, separator), separator) == text,
    decreases text.len(),
{
    let pieces = split(text, separator);
    if text.len() == 0 {
        assert(joined(pieces, separator) =~= text);
    } else {
        let before = split(text.drop_last(), separator);
        lemma_split_nonempty(text.drop_last(), separator);
        lemma_joined_split(text.drop_last(), separator);
        assert(text.drop_last().push(text.last()) =~= text);
        if text.last() == separator {
            assert(pieces.drop_last() =~= before);
            assert(joined(pieces, separator) =~= text);
        } else {
            assert(pieces.drop_last() =~= before.drop_last());
            if before.len() == 1 {
                assert(joined(pieces, separator) =~= text);
            } else {
                assert(joined(before, separator) == joined(before.drop_last(), separator).push(
                    separator,
                ) + before.last());
                assert(joined(pieces, separator) =~= text);
            }
        }
    }
}

/// A character of joined pieces is the separator or stands in one of them.
pub proof fn lemma_joined_characters(pieces: Seq<Seq<char>>, separator: char, k: int)
    requires
        0 <= k < joined(pieces, separator).len(),
    ensures
        joined(pieces, separator)[k] == separator || exists|i: int|
            0 <= i < pieces.len() && holds(#[trigger] pieces[i], joined(pieces, separator)[k]),
    decreases pieces.len(),
{
    let c = joined(pieces, separator)[k];
    if pieces.len() == 1 {
        assert(holds(pieces[0], c));
    } else {
        let before = joined(pieces.drop_last(), separator);
        if k < before.len() {
            lemma_joined_characters(pieces.drop_last(), separator, k);
            if c != separator {
                let i = choose|i: int|
                    0 <= i < pieces.drop_last().len() && holds(#[trigger] pieces.drop_last()[i], c);
                assert(holds(pieces[i], c));
            }
        } else if k > before.len() {
            assert(pieces.last()[k - before.len() - 1] == c);
            assert(holds(pieces[pieces.len() - 1], c));
        }
    }
}

/// Making letters small twice is making them small once.
pub proof fn lemma_lower_twice(text: Seq<char>)
    ensures
        lower_text(lower_text(text)) == lower_text(text),
{
    assert(lower_text(lower_text(text)) =~= lower_text(text));
}

/// Removing the white space around a text and making its letters capital can be done in either
/// order.
pub proof fn lemma_trimmed_upper(text: Seq<char>)
    ensures
        upper_text(trimmed(text)) == trimmed(upper_text(text)),
    decreases text.len(),
{
    if text.len() > 0 {
        assert(is_white(upper(text.first())) == is_white(text.first()));
        assert(is_white(upper(text.last())) == is_white(text.last()));
        assert(upper_text(text).drop_first() =~= upper_text(text.drop_first()));
        assert(upper_text(text).drop_last() =~= upper_text(text.drop_last()));
        if is_white(text.first()) {
            lemma_trimmed_upper(text.drop_first());
        } else if is_white(text.last()) {
            lemma_trimmed_upper(text.drop_last());
        }
    } else {
        assert(upper_text(text) =~= text);
    }
}

/// White space around a text is removed together with what was around it before.
pub proof fn lemma_trimmed_around(before: Seq<char>, text: Seq<char>, after: Seq<char>)
    requires
        forall|i: int| 0 <= i < before.len() ==> is_white(#[trigger] before[i]),
        forall|i: int| 0 <= i < after.len() ==> is_white(#[trigger] after[i]),
    ensures
        trimmed(before + text + after) == trimmed(text),
    decreases before.len() + text.len() + after.len(),
{
    let whole = before + text + after;
    if before.len() > 0 {
        assert(whole.first() == before[0]);
        assert(whole.drop_first() =~= before.drop_first() + text + after);
        assert forall|i: int| 0 <= i < before.drop_first().len() implies is_white(
            #[trigger] before.drop_first()[i],
        ) by {
            assert(before.drop_first()[i] == before[i + 1]);
        }
        lemma_trimmed_around(before.drop_first(), text, after);
    } else if text.len() > 0 && is_white(text.first()) {
        assert(whole.first() == text.first());
        assert(whole.drop_first() =~= before + text.drop_first() + after);
        lemma_trimmed_around(before, text.drop_first(), after);
    } else if after.len() > 0 {
        assert(whole.last() == after.last());
        assert(is_white(after[after.len() - 1]));
        if text.len() > 0 {
            assert(whole.first() == text.first());
            assert(whole.drop_last() =~= before + text + after.drop_last());
            lemma_trimmed_around(before, text, after.drop_last());
        } else {
            assert(whole =~= after);
            assert(is_white(after[0]));
            assert(whole.drop_first() =~= before + text + after.drop_first());
            assert forall|i: int| 0 <= i < after.drop_first().len() implies is_white(
                #[trigger] after.drop_first()[i],
            ) by {
                assert(after.drop_first()[i] == after[i + 1]);
            }
            lemma_trimmed_around(before, text, after.drop_first());
        }
    } else {
        assert(whole =~= text);
    }
}

} // verus!
