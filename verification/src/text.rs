//! Text as sequences of characters: case, white space, searching, words and
//! decimal numbers.

use vstd::prelude::*;
use vstd::utf8::{decode_utf8, is_ascii_chars, valid_utf8};

verus! {

/// `String::push` appends one character.
pub assume_specification[ String::push ](s: &mut String, c: char)
    ensures
        final(s)@ == old(s)@.push(c),
;

/// `String::push_str` appends all the characters of a string slice.
pub assume_specification[ String::push_str ](s: &mut String, other: &str)
    ensures
        final(s)@ == old(s)@ + other@,
;

/// Whether a character has the Unicode property `White_Space`.
pub open spec fn white_space(c: char) -> bool {
    ||| '\u{9}' <= c <= '\u{d}'
    ||| c == ' '
    ||| c == '\u{85}'
    ||| c == '\u{a0}'
    ||| c == '\u{1680}'
    ||| '\u{2000}' <= c <= '\u{200a}'
    ||| c == '\u{2028}'
    ||| c == '\u{2029}'
    ||| c == '\u{202f}'
    ||| c == '\u{205f}'
    ||| c == '\u{3000}'
}

/// Decides [`white_space`].
pub fn is_white_space(c: char) -> (r: bool)
    ensures
        r == white_space(c),
{
    ('\u{9}' <= c && c <= '\u{d}') || c == ' ' || c == '\u{85}' || c == '\u{a0}' || c == '\u{1680}'
        || ('\u{2000}' <= c && c <= '\u{200a}') || c == '\u{2028}' || c == '\u{2029}' || c
        == '\u{202f}' || c == '\u{205f}' || c == '\u{3000}'
}

/// The characters of a string, in order.
pub fn chars_of(s: &str) -> (r: Vec<char>)
    ensures
        r@ == s@,
{
    let mut r: Vec<char> = Vec::new();
    for c in it: s.chars()
        invariant
            r@ == s@.take(it.index()),
            it.seq() == s@,
    {
        assert(s@.take(it.index() + 1) =~= s@.take(it.index()).push(c));
        r.push(c);
    }
    assert(s@.take(s@.len() as int) =~= s@);
    r
}

/// The characters from one position up to another, as a string.
pub fn string_of(chars: &Vec<char>, from: usize, to: usize) -> (r: String)
    requires
        from <= to <= chars@.len(),
    ensures
        r@ == chars@.subrange(from as int, to as int),
{
    let mut r: String = String::new();
    let mut i: usize = from;
    while i < to
        invariant
            from <= i <= to <= chars@.len(),
            r@ == chars@.subrange(from as int, i as int),
        decreases to - i,
    {
        r.push(chars[i]);
        i = i + 1;
        assert(chars@.subrange(from as int, i as int) =~= chars@.subrange(
            from as int,
            i - 1,
        ).push(chars@[i - 1]));
    }
    r
}

// ---------------------------------------------------------------------------
// UTF-8
// ---------------------------------------------------------------------------

/// `std::str::from_utf8` accepts exactly the well-formed UTF-8 sequences, and
/// gives the characters that they encode.
#[verifier::external_body]
pub(crate) fn utf8_text(bytes: &[u8]) -> (r: Option<&str>)
    ensures
        r is Some <==> valid_utf8(bytes@),
        r matches Some(text) ==> text@ == decode_utf8(bytes@),
{
    match std::str::from_utf8(bytes) {
        Ok(text) => Some(text),
        Err(_) => None,
    }
}

/// What `String::from_utf8_lossy` makes of a byte sequence.
pub uninterp spec fn lossy_text(bytes: Seq<u8>) -> Seq<char>;

/// `String::from_utf8_lossy` gives the characters that well-formed UTF-8
/// encodes. What it puts in place of ill-formed parts goes by the name
/// [`lossy_text`].
#[verifier::external_body]
pub(crate) fn utf8_text_lossy(bytes: &[u8]) -> (r: String)
    ensures
        r@ == lossy_text(bytes@),
        valid_utf8(bytes@) ==> r@ == decode_utf8(bytes@),
{
    String::from_utf8_lossy(bytes).into_owned()
}

// ---------------------------------------------------------------------------
// Case
// ---------------------------------------------------------------------------

/// The lower-case form of an ASCII capital; any other character itself.
pub open spec fn ascii_lower(c: char) -> char {
    if 'A' <= c <= 'Z' {
        (c as u8 + 32) as char
    } else {
        c
    }
}

/// The capital form of an ASCII small letter; any other character itself.
pub open spec fn ascii_upper(c: char) -> char {
    if 'a' <= c <= 'z' {
        (c as u8 - 32) as char
    } else {
        c
    }
}

/// Computes [`ascii_lower`].
pub fn to_ascii_lower(c: char) -> (r: char)
    ensures
        r == ascii_lower(c),
{
    if 'A' <= c && c <= 'Z' {
        (c as u8 + 32) as char
    } else {
        c
    }
}

/// Whether two texts differ at most in the case of ASCII letters.
pub open spec fn same_but_case(a: Seq<char>, b: Seq<char>) -> bool {
    &&& a.len() == b.len()
    &&& forall|i: int| 0 <= i < a.len() ==> ascii_lower(#[trigger] a[i]) == ascii_lower(b[i])
}

/// Decides [`same_but_case`].
pub fn eq_ignore_case(a: &str, b: &str) -> (r: bool)
    ensures
        r == same_but_case(a@, b@),
{
    let left: Vec<char> = chars_of(a);
    let right: Vec<char> = chars_of(b);
    if left.len() != right.len() {
        return false;
    }
    let mut i: usize = 0;
    while i < left.len()
        invariant
            left@ == a@,
            right@ == b@,
            left@.len() == right@.len(),
            i <= left@.len(),
            forall|j: int| 0 <= j < i ==> ascii_lower(#[trigger] a@[j]) == ascii_lower(b@[j]),
        decreases left@.len() - i,
    {
        if to_ascii_lower(left[i]) != to_ascii_lower(right[i]) {
            assert(ascii_lower(a@[i as int]) != ascii_lower(b@[i as int]));
            return false;
        }
        i = i + 1;
    }
    true
}

/// What `str::to_uppercase` makes of a text.
pub uninterp spec fn uppercase(text: Seq<char>) -> Seq<char>;

/// `str::to_uppercase` maps a text by the Unicode rules for capitals, which go
/// by the name [`uppercase`]. An ASCII text is mapped letter by letter.
#[verifier::external_body]
pub(crate) fn to_uppercase(text: &str) -> (r: String)
    ensures
        r@ == uppercase(text@),
        is_ascii_chars(text@) ==> r@ == text@.map_values(|c: char| ascii_upper(c)),
{
    text.to_uppercase()
}

// ---------------------------------------------------------------------------
// Searching
// ---------------------------------------------------------------------------

/// Whether `pattern` stands in `text` at position `at`.
pub open spec fn occurs_at(text: Seq<char>, pattern: Seq<char>, at: int) -> bool {
    &&& 0 <= at
    &&& at + pattern.len() <= text.len()
    &&& text.subrange(at, at + pattern.len()) == pattern
}

/// Whether `pattern` stands anywhere in `text`.
pub open spec fn contains(text: Seq<char>, pattern: Seq<char>) -> bool {
    exists|at: int| occurs_at(text, pattern, at)
}

/// Decides [`occurs_at`].
pub fn is_at(text: &Vec<char>, pattern: &Vec<char>, at: usize) -> (r: bool)
    requires
        at <= text@.len(),
    ensures
        r == occurs_at(text@, pattern@, at as int),
{
    if pattern.len() > text.len() - at {
        return false;
    }
    let mut i: usize = 0;
    while i < pattern.len()
        invariant
            at + pattern.len() <= text.len(),
            i <= pattern@.len(),
            forall|j: int| 0 <= j < i ==> #[trigger] pattern@[j] == text@[at + j],
        decreases pattern@.len() - i,
    {
        if text[at + i] != pattern[i] {
            proof {
                if occurs_at(text@, pattern@, at as int) {
                    assert(text@.subrange(at as int, at + pattern@.len())[i as int]
                        == pattern@[i as int]);
                }
            }
            return false;
        }
        i = i + 1;
    }
    assert(text@.subrange(at as int, at + pattern@.len()) =~= pattern@);
    true
}

/// Decides [`contains`].
pub fn contains_text(text: &str, pattern: &str) -> (r: bool)
    ensures
        r == contains(text@, pattern@),
{
    let hay: Vec<char> = chars_of(text);
    let needle: Vec<char> = chars_of(pattern);
    let mut at: usize = 0;
    while at < hay.len()
        invariant
            hay@ == text@,
            needle@ == pattern@,
            at <= hay@.len(),
            forall|j: int| 0 <= j < at ==> !occurs_at(text@, pattern@, j),
        decreases hay@.len() - at,
    {
        if is_at(&hay, &needle, at) {
            return true;
        }
        at = at + 1;
    }
    is_at(&hay, &needle, at)
}

/// `text` with every occurrence of `pattern` replaced, found from left to right
/// and without overlap.
pub open spec fn replaced(text: Seq<char>, pattern: Seq<char>, by: Seq<char>) -> Seq<char>
    decreases text.len(),
{
    if text.len() == 0 || pattern.len() == 0 {
        text
    } else if occurs_at(text, pattern, 0) {
        by + replaced(text.skip(pattern.len() as int), pattern, by)
    } else {
        seq![text[0]] + replaced(text.skip(1), pattern, by)
    }
}

/// Computes [`replaced`].
pub fn replace_all(text: &str, pattern: &str, by: &str) -> (r: String)
    requires
        pattern@.len() > 0,
    ensures
        r@ == replaced(text@, pattern@, by@),
{
    let hay: Vec<char> = chars_of(text);
    let needle: Vec<char> = chars_of(pattern);
    let mut r: String = String::new();
    let mut at: usize = 0;
    assert(text@.skip(0) =~= text@);
    while at < hay.len()
        invariant
            hay@ == text@,
            needle@ == pattern@,
            pattern@.len() > 0,
            at <= hay@.len(),
            r@ + replaced(text@.skip(at as int), pattern@, by@) == replaced(text@, pattern@, by@),
        decreases hay@.len() - at,
    {
        let ghost rest = text@.skip(at as int);
        proof {
            assert(rest.subrange(0, pattern@.len() as int) =~= text@.subrange(
                at as int,
                at + pattern@.len(),
            ) || at + pattern@.len() > text@.len());
        }
        if is_at(&hay, &needle, at) {
            r.push_str(by);
            at = at + needle.len();
            assert(rest.skip(pattern@.len() as int) =~= text@.skip(at as int));
        } else {
            r.push(hay[at]);
            at = at + 1;
            assert(rest.skip(1) =~= text@.skip(at as int));
        }
        assert(r@ + replaced(text@.skip(at as int), pattern@, by@) =~= replaced(
            text@,
            pattern@,
            by@,
        ));
    }
    assert(r@ =~= replaced(text@, pattern@, by@));
    r
}

// ---------------------------------------------------------------------------
// Words
// ---------------------------------------------------------------------------

/// How many characters a text begins with that are not white space.
pub open spec fn word_length(text: Seq<char>) -> nat
    decreases text.len(),
{
    if text.len() == 0 || white_space(text[0]) {
        0
    } else {
        1 + word_length(text.skip(1))
    }
}

/// The words of a text: its longest runs of characters other than white space.
pub open spec fn words(text: Seq<char>) -> Seq<Seq<char>>
    decreases text.len(),
{
    if text.len() == 0 {
        seq![]
    } else if white_space(text[0]) {
        words(text.skip(1))
    } else {
        let n = word_length(text);
        if 0 < n <= text.len() {
            seq![text.take(n as int)] + words(text.skip(n as int))
        } else {
            seq![]
        }
    }
}

/// Pieces put together, with a separator between each two.
pub open spec fn joined(pieces: Seq<Seq<char>>, separator: Seq<char>) -> Seq<char>
    decreases pieces.len(),
{
    if pieces.len() == 0 {
        seq![]
    } else if pieces.len() == 1 {
        pieces[0]
    } else {
        joined(pieces.drop_last(), separator) + separator + pieces.last()
    }
}

/// Whether a text holds no white space.
pub open spec fn solid(text: Seq<char>) -> bool {
    forall|i: int| 0 <= i < text.len() ==> !white_space(#[trigger] text[i])
}

/// A run of other characters before white space, or before the end, is counted
/// whole.
pub proof fn lemma_word_length(word: Seq<char>, rest: Seq<char>)
    requires
        solid(word),
        rest.len() == 0 || white_space(rest[0]),
    ensures
        word_length(word + rest) == word.len(),
    decreases word.len(),
{
    let text = word + rest;
    if word.len() > 0 {
        assert(text[0] == word[0]);
        assert(text.skip(1) =~= word.skip(1) + rest);
        assert forall|i: int| 0 <= i < word.skip(1).len() implies !white_space(
            #[trigger] word.skip(1)[i],
        ) by {
            assert(word.skip(1)[i] == word[i + 1]);
        }
        lemma_word_length(word.skip(1), rest);
    } else {
        assert(text =~= rest);
    }
}

/// The first word of a text that begins with one.
pub proof fn lemma_words_first(word: Seq<char>, rest: Seq<char>)
    requires
        word.len() > 0,
        solid(word),
        rest.len() == 0 || white_space(rest[0]),
    ensures
        words(word + rest) == seq![word] + words(rest),
{
    let text = word + rest;
    lemma_word_length(word, rest);
    assert(text[0] == word[0]);
    assert(text.take(word.len() as int) =~= word);
    assert(text.skip(word.len() as int) =~= rest);
}

/// Adding a piece to those joined so far.
pub proof fn lemma_joined_push(pieces: Seq<Seq<char>>, piece: Seq<char>, separator: Seq<char>)
    ensures
        pieces.len() == 0 ==> joined(pieces.push(piece), separator) == piece,
        pieces.len() > 0 ==> joined(pieces.push(piece), separator) == joined(pieces, separator)
            + separator + piece,
{
    let all = pieces.push(piece);
    assert(all.drop_last() =~= pieces);
    assert(all.last() == piece);
}

/// What is counted as the first word of a text is one.
proof fn lemma_word_length_is_word(text: Seq<char>)
    ensures
        word_length(text) <= text.len(),
        solid(text.take(word_length(text) as int)),
        word_length(text) < text.len() ==> white_space(text[word_length(text) as int]),
    decreases text.len(),
{
    if text.len() > 0 && !white_space(text[0]) {
        lemma_word_length_is_word(text.skip(1));
        let n = word_length(text.skip(1)) as int;
        assert forall|i: int| 0 <= i < n + 1 implies !white_space(
            #[trigger] text.take(n + 1)[i],
        ) by {
            if i > 0 {
                assert(text.skip(1).take(n)[i - 1] == text[i]);
            }
        }
        if n < text.skip(1).len() {
            assert(text.skip(1)[n] == text[n + 1]);
        }
    }
}

/// The words of a text are not empty, and hold no white space.
pub proof fn lemma_words_solid(text: Seq<char>)
    ensures
        forall|i: int|
            0 <= i < words(text).len() ==> (#[trigger] words(text)[i]).len() > 0 && solid(
                words(text)[i],
            ),
    decreases text.len(),
{
    if text.len() > 0 {
        if white_space(text[0]) {
            lemma_words_solid(text.skip(1));
            assert(words(text) == words(text.skip(1)));
        } else {
            let n = word_length(text);
            lemma_word_length_is_word(text);
            lemma_words_solid(text.skip(n as int));
            let rest = words(text.skip(n as int));
            assert forall|i: int| 0 <= i < words(text).len() implies (
            #[trigger] words(text)[i]).len() > 0 && solid(words(text)[i]) by {
                if i > 0 {
                    assert(words(text)[i] == rest[i - 1]);
                }
            }
        }
    }
}

/// The words of a text that goes on with white space are its own, followed by
/// those of what it goes on with.
pub proof fn lemma_words_concat(text: Seq<char>, rest: Seq<char>)
    requires
        rest.len() == 0 || white_space(rest[0]),
    ensures
        words(text + rest) == words(text) + words(rest),
    decreases text.len(),
{
    if text.len() == 0 {
        assert(text + rest =~= rest);
        assert(words(text) + words(rest) =~= words(rest));
    } else if white_space(text[0]) {
        assert((text + rest).skip(1) =~= text.skip(1) + rest);
        lemma_words_concat(text.skip(1), rest);
    } else {
        let n = word_length(text) as int;
        lemma_word_length_is_word(text);
        let word = text.take(n);
        let left = text.skip(n);
        assert(text + rest =~= word + (left + rest));
        assert(text =~= word + left);
        if left.len() > 0 {
            assert((left + rest)[0] == text[n]);
        } else {
            assert(left + rest =~= rest);
        }
        lemma_words_first(word, left + rest);
        lemma_words_first(word, left);
        lemma_words_concat(left, rest);
        assert(seq![word] + (words(left) + words(rest)) =~= (seq![word] + words(left)) + words(
            rest,
        ));
    }
}

/// Words that are joined by spaces are the words of the result.
pub proof fn lemma_words_of_joined(pieces: Seq<Seq<char>>)
    requires
        forall|i: int|
            0 <= i < pieces.len() ==> (#[trigger] pieces[i]).len() > 0 && solid(pieces[i]),
    ensures
        words(joined(pieces, seq![' '])) == pieces,
    decreases pieces.len(),
{
    if pieces.len() == 1 {
        lemma_words_first(pieces[0], seq![]);
        assert(pieces[0] + seq![] =~= pieces[0]);
        assert(words(joined(pieces, seq![' '])) =~= pieces);
    } else if pieces.len() > 1 {
        let earlier = pieces.drop_last();
        let word = pieces.last();
        let spaced = seq![' '] + word;
        lemma_words_of_joined(earlier);
        assert(joined(pieces, seq![' ']) =~= joined(earlier, seq![' ']) + spaced);
        lemma_words_concat(joined(earlier, seq![' ']), spaced);
        assert(spaced.skip(1) =~= word);
        lemma_words_first(word, seq![]);
        assert(word + seq![] =~= word);
        assert(words(spaced) =~= seq![word]);
        assert(earlier + seq![word] =~= pieces);
    }
}

/// Whether the white space of a text is single spaces between other characters.
pub open spec fn tidy(text: Seq<char>) -> bool {
    forall|i: int|
        0 <= i < text.len() && white_space(#[trigger] text[i]) ==> {
            &&& text[i] == ' '
            &&& 0 < i < text.len() - 1
            &&& !white_space(text[i - 1])
            &&& !white_space(text[i + 1])
        }
}

/// Words that are joined by spaces make a tidy text.
pub proof fn lemma_joined_tidy(pieces: Seq<Seq<char>>)
    requires
        forall|i: int|
            0 <= i < pieces.len() ==> (#[trigger] pieces[i]).len() > 0 && solid(pieces[i]),
    ensures
        tidy(joined(pieces, seq![' '])),
        pieces.len() > 0 ==> joined(pieces, seq![' ']).len() > 0,
    decreases pieces.len(),
{
    if pieces.len() > 1 {
        let line = joined(pieces.drop_last(), seq![' ']);
        let word = pieces.last();
        lemma_joined_tidy(pieces.drop_last());
        let whole = joined(pieces, seq![' ']);
        assert(whole == line + seq![' '] + word);
        assert forall|i: int| 0 <= i < whole.len() && white_space(#[trigger] whole[i]) implies {
            &&& whole[i] == ' '
            &&& 0 < i < whole.len() - 1
            &&& !white_space(whole[i - 1])
            &&& !white_space(whole[i + 1])
        } by {
            if i < line.len() {
                assert(whole[i] == line[i]);
                assert(whole[i - 1] == line[i - 1]);
                assert(whole[i + 1] == line[i + 1]);
            } else if i == line.len() {
                assert(whole[i - 1] == line[i - 1]);
                assert(white_space(line[i - 1]) ==> i - 1 < line.len() - 1);
                assert(whole[i + 1] == word[0]);
            } else {
                assert(whole[i] == word[i - line.len() - 1]);
            }
        }
    }
}

/// The words of a text with one space between each two.
pub fn words_on_one_line(text: &str) -> (r: String)
    ensures
        r@ == joined(words(text@), seq![' ']),
{
    let mut line: String = String::new();
    let mut in_word: bool = false;
    let ghost mut done: Seq<Seq<char>> = seq![];
    let ghost mut word: Seq<char> = seq![];
    assert(word + text@.skip(0) =~= text@);
    assert(done + words(text@) =~= words(text@));
    for c in it: text.chars()
        invariant
            it.seq() == text@,
            solid(word),
            in_word == (word.len() > 0),
            words(text@) == done + words(word + text@.skip(it.index())),
            line@ == joined(if in_word { done.push(word) } else { done }, seq![' ']),
            done.len() == 0 && !in_word ==> line@.len() == 0,
            done.len() > 0 || in_word ==> line@.len() > 0,
            forall|i: int| 0 <= i < done.len() ==> (#[trigger] done[i]).len() > 0,
    {
        let ghost rest = text@.skip(it.index());
        let ghost after = text@.skip(it.index() + 1);
        assert(rest =~= seq![c] + after);
        assert(rest.skip(1) =~= after);
        if is_white_space(c) {
            proof {
                if in_word {
                    lemma_words_first(word, rest);
                    assert(done + (seq![word] + words(rest)) =~= done.push(word) + words(rest));
                    done = done.push(word);
                } else {
                    assert(word + rest =~= rest);
                }
                word = seq![];
                assert(word + after =~= after);
            }
            in_word = false;
        } else {
            let ghost longer = word.push(c);
            assert(word + rest =~= longer + after);
            if in_word {
                proof {
                    lemma_joined_push(done, word, seq![' ']);
                    lemma_joined_push(done, longer, seq![' ']);
                }
                let ghost before = line@;
                line.push(c);
                assert(line@ =~= joined(done.push(longer), seq![' ']));
            } else {
                proof {
                    lemma_joined_push(done, longer, seq![' ']);
                    assert(word =~= seq![]);
                    assert(longer =~= seq![c]);
                }
                if !line.as_str().is_empty() {
                    line.push(' ');
                }
                line.push(c);
                assert(line@ =~= joined(done.push(longer), seq![' ']));
            }
            proof {
                word = longer;
            }
            in_word = true;
        }
    }
    proof {
        let rest = text@.skip(text@.len() as int);
        assert(rest =~= seq![]);
        assert(word + rest =~= word);
        if in_word {
            lemma_words_first(word, rest);
            assert(done + (seq![word] + words(rest)) =~= done.push(word));
        } else {
            assert(word =~= seq![]);
            assert(done + words(word) =~= done);
        }
    }
    line
}

/// A text without the white space at its beginning.
pub open spec fn trim_start(text: Seq<char>) -> Seq<char>
    decreases text.len(),
{
    if text.len() > 0 && white_space(text[0]) {
        trim_start(text.skip(1))
    } else {
        text
    }
}

/// A text without the white space at its end.
pub open spec fn trim_end(text: Seq<char>) -> Seq<char>
    decreases text.len(),
{
    if text.len() > 0 && white_space(text.last()) {
        trim_end(text.drop_last())
    } else {
        text
    }
}

/// A text without the white space at both its ends.
pub open spec fn trimmed(text: Seq<char>) -> Seq<char> {
    trim_end(trim_start(text))
}

/// What is left of a text without the white space at its start is its end.
proof fn lemma_trim_start_is_end(text: Seq<char>) -> (from: int)
    ensures
        0 <= from <= text.len(),
        trim_start(text) == text.skip(from),
        forall|i: int| 0 <= i < from ==> white_space(#[trigger] text[i]),
        from < text.len() ==> !white_space(text[from]),
    decreases text.len(),
{
    if text.len() > 0 && white_space(text[0]) {
        let rest = lemma_trim_start_is_end(text.skip(1));
        assert(text.skip(1).skip(rest) =~= text.skip(rest + 1));
        assert forall|i: int| 0 <= i < rest + 1 implies white_space(#[trigger] text[i]) by {
            if i > 0 {
                assert(text.skip(1)[i - 1] == text[i]);
            }
        }
        rest + 1
    } else {
        assert(text.skip(0) =~= text);
        0
    }
}

/// What is left of a text without the white space at its end is its start.
proof fn lemma_trim_end_is_start(text: Seq<char>) -> (to: int)
    ensures
        0 <= to <= text.len(),
        trim_end(text) == text.take(to),
        forall|i: int| to <= i < text.len() ==> white_space(#[trigger] text[i]),
        0 < to ==> !white_space(text[to - 1]),
    decreases text.len(),
{
    if text.len() > 0 && white_space(text.last()) {
        let to = lemma_trim_end_is_start(text.drop_last());
        assert(text.drop_last().take(to) =~= text.take(to));
        assert forall|i: int| to <= i < text.len() implies white_space(#[trigger] text[i]) by {
            if i < text.len() - 1 {
                assert(text.drop_last()[i] == text[i]);
            }
        }
        to
    } else {
        assert(text.take(text.len() as int) =~= text);
        text.len() as int
    }
}

/// Trimming keeps everything of a text but white space at its ends: it leaves the
/// part between two places, with nothing but white space outside of them and none
/// at the ends of the part.
pub proof fn law_trimming_keeps_the_rest(text: Seq<char>) -> (ends: (int, int))
    ensures
        0 <= ends.0 <= ends.1 <= text.len(),
        trimmed(text) == text.subrange(ends.0, ends.1),
        forall|i: int| 0 <= i < ends.0 || ends.1 <= i < text.len() ==> white_space(#[trigger] text[i]),
        ends.0 < ends.1 ==> !white_space(text[ends.0]) && !white_space(text[ends.1 - 1]),
{
    let from = lemma_trim_start_is_end(text);
    let rest = text.skip(from);
    let length = lemma_trim_end_is_start(rest);
    assert(rest.take(length) =~= text.subrange(from, from + length));
    assert forall|i: int| from + length <= i < text.len() implies white_space(
        #[trigger] text[i],
    ) by {
        assert(rest[i - from] == text[i]);
    }
    if length > 0 {
        assert(rest[length - 1] == text[from + length - 1]);
    }
    (from, from + length)
}

/// Computes [`trimmed`].
pub fn trim(text: &str) -> (r: String)
    ensures
        r@ == trimmed(text@),
{
    let chars: Vec<char> = chars_of(text);
    let mut from: usize = 0;
    assert(chars@.skip(0) =~= chars@);
    while from < chars.len() && is_white_space(chars[from])
        invariant
            from <= chars@.len(),
            trim_start(chars@.skip(from as int)) == trim_start(chars@),
        decreases chars@.len() - from,
    {
        from = from + 1;
        assert(chars@.skip(from - 1).skip(1) =~= chars@.skip(from as int));
    }
    let mut to: usize = chars.len();
    assert(chars@.subrange(from as int, to as int) =~= chars@.skip(from as int));
    while to > from && is_white_space(chars[to - 1])
        invariant
            from <= to <= chars@.len(),
            trim_end(chars@.subrange(from as int, to as int)) == trimmed(chars@),
        decreases to,
    {
        assert(chars@.subrange(from as int, to as int).drop_last() =~= chars@.subrange(
            from as int,
            to - 1,
        ));
        to = to - 1;
    }
    string_of(&chars, from, to)
}

// ---------------------------------------------------------------------------
// Decimal numbers
// ---------------------------------------------------------------------------

/// The digit that stands for a number below ten.
pub open spec fn digit(n: nat) -> char {
    ('0' as u8 + n) as char
}

/// A natural number in decimal digits, without leading zeros.
pub open spec fn decimal(n: nat) -> Seq<char>
    decreases n,
{
    if n < 10 {
        seq![digit(n)]
    } else {
        decimal(n / 10).push(digit(n % 10))
    }
}

/// An integer in decimal digits, with a minus sign where it is negative.
pub open spec fn signed_decimal(i: int) -> Seq<char> {
    if i < 0 {
        seq!['-'] + decimal((-i) as nat)
    } else {
        decimal(i as nat)
    }
}

/// Appends a number in decimal digits.
pub fn push_decimal(out: &mut String, n: u64)
    ensures
        final(out)@ == old(out)@ + decimal(n as nat),
    decreases n,
{
    let ghost before = out@;
    if n >= 10 {
        push_decimal(out, n / 10);
    }
    let last: char = (('0' as u8) + ((n % 10) as u8)) as char;
    out.push(last);
    assert(out@ =~= before + decimal(n as nat));
}

/// The value of a run of decimal digits, read from the left.
pub open spec fn digits_value(digits: Seq<char>) -> nat
    decreases digits.len(),
{
    if digits.len() == 0 {
        0
    } else {
        digits_value(digits.drop_last()) * 10 + (digits.last() as nat - '0' as nat) as nat
    }
}

/// Whether a text is a run of at least one decimal digit.
pub open spec fn all_digits(text: Seq<char>) -> bool {
    &&& text.len() > 0
    &&& forall|i: int| 0 <= i < text.len() ==> '0' <= #[trigger] text[i] <= '9'
}

/// The integer that a text denotes: an optional sign and then only digits.
pub open spec fn integer_value(text: Seq<char>) -> Option<int> {
    if text.len() > 0 && text[0] == '-' {
        if all_digits(text.skip(1)) {
            Some(-digits_value(text.skip(1)))
        } else {
            None
        }
    } else if text.len() > 0 && text[0] == '+' {
        if all_digits(text.skip(1)) {
            Some(digits_value(text.skip(1)) as int)
        } else {
            None
        }
    } else if all_digits(text) {
        Some(digits_value(text) as int)
    } else {
        None
    }
}

/// The integer that a text denotes, where it fits in 64 bits.
pub open spec fn i64_value(text: Seq<char>) -> Option<i64> {
    match integer_value(text) {
        Some(value) => if i64::MIN <= value <= i64::MAX {
            Some(value as i64)
        } else {
            None
        },
        None => None,
    }
}

/// The value of digits is at least that of those they begin with.
proof fn lemma_digits_value_grows(digits: Seq<char>, n: int)
    requires
        0 <= n <= digits.len(),
        all_digits(digits),
    ensures
        digits_value(digits.take(n)) <= digits_value(digits),
    decreases digits.len() - n,
{
    if n == digits.len() {
        assert(digits.take(n) =~= digits);
    } else {
        let longer = digits.take(n + 1);
        assert(longer.drop_last() =~= digits.take(n));
        assert(longer.last() == digits[n]);
        lemma_digits_value_grows(digits, n + 1);
    }
}

/// The value of the digits from a position on, where it is at most two to the
/// power of 63.
fn read_digits(chars: &Vec<char>, from: usize) -> (r: Option<u64>)
    requires
        from <= chars@.len(),
    ensures
        r matches Some(value) ==> all_digits(chars@.skip(from as int)) && value == digits_value(
            chars@.skip(from as int),
        ) && value <= 0x8000_0000_0000_0000,
        r is None && all_digits(chars@.skip(from as int)) ==> digits_value(
            chars@.skip(from as int),
        ) > 0x8000_0000_0000_0000,
{
    let ghost digits = chars@.skip(from as int);
    if from == chars.len() {
        return None;
    }
    let mut value: u64 = 0;
    let mut i: usize = from;
    while i < chars.len()
        invariant
            from <= i <= chars@.len(),
            digits == chars@.skip(from as int),
            value == digits_value(digits.take(i - from)),
            value <= 0x8000_0000_0000_0000,
            forall|j: int| 0 <= j < i - from ==> '0' <= #[trigger] digits[j] <= '9',
        decreases chars@.len() - i,
    {
        let c: char = chars[i];
        assert(c == digits[i - from]);
        if c < '0' || c > '9' {
            return None;
        }
        proof {
            let longer = digits.take(i - from + 1);
            assert(longer.drop_last() =~= digits.take(i - from));
            assert(longer.last() == c);
        }
        let next: u128 = (value as u128) * 10 + ((c as u8 - '0' as u8) as u128);
        if next > 0x8000_0000_0000_0000 {
            proof {
                if all_digits(digits) {
                    lemma_digits_value_grows(digits, i - from + 1);
                }
            }
            return None;
        }
        value = next as u64;
        i = i + 1;
    }
    assert(digits.take(i - from) =~= digits);
    Some(value)
}

/// Computes [`i64_value`].
pub fn parse_i64(text: &str) -> (r: Option<i64>)
    ensures
        r == i64_value(text@),
{
    let chars: Vec<char> = chars_of(text);
    if chars.len() > 0 && chars[0] == '-' {
        match read_digits(&chars, 1) {
            Some(value) => if value == 0x8000_0000_0000_0000 {
                Some(i64::MIN)
            } else {
                Some(-(value as i64))
            },
            None => None,
        }
    } else {
        let from: usize = if chars.len() > 0 && chars[0] == '+' {
            1
        } else {
            0
        };
        assert(chars@.skip(0) =~= chars@);
        match read_digits(&chars, from) {
            Some(value) => if value == 0x8000_0000_0000_0000 {
                None
            } else {
                Some(value as i64)
            },
            None => None,
        }
    }
}

/// Decimal digits are digits, and their value is the number they were made of.
pub proof fn lemma_decimal_value(n: nat)
    ensures
        all_digits(decimal(n)),
        digits_value(decimal(n)) == n,
    decreases n,
{
    if n < 10 {
        assert(decimal(n).drop_last() =~= seq![]);
        assert(digits_value(decimal(n).drop_last()) == 0);
        assert(digits_value(decimal(n)) == digits_value(decimal(n).drop_last()) * 10 + (digit(
            n,
        ) as nat - '0' as nat));
    } else {
        lemma_decimal_value(n / 10);
        assert(decimal(n).drop_last() =~= decimal(n / 10));
    }
}

/// An integer written in decimal digits denotes itself.
pub proof fn law_integer_text_reads_back(i: i64)
    ensures
        i64_value(signed_decimal(i as int)) == Some(i),
{
    if i < 0 {
        lemma_decimal_value((-i) as nat);
        assert(signed_decimal(i as int).skip(1) =~= decimal((-i) as nat));
    } else {
        lemma_decimal_value(i as nat);
        assert('0' <= decimal(i as nat)[0] <= '9');
    }
}

} // verus!
