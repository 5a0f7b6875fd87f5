//! Characters, words and white space.

use crate::handlers::one_line;
use crate::text::{
    ascii_lower, ascii_upper, chars_of, contains, contains_text, eq_ignore_case, is_white_space,
    joined, law_trimming_keeps_the_rest, lemma_joined_push, lemma_words_concat, lemma_words_first,
    occurs_at, replace_all, replaced, same_but_case, string_of, trim, trimmed, white_space, words,
    words_on_one_line,
};
use vstd::prelude::*;

verus! {

/// Whether a word stands in a text from some place on, letter by letter.
pub open spec fn stands_at(text: Seq<char>, word: Seq<char>, at: int) -> bool {
    &&& 0 <= at <= text.len() - word.len()
    &&& forall|k: int| 0 <= k < word.len() ==> text[at + k] == #[trigger] word[k]
}

/// Whether a word stands somewhere in a text.
pub open spec fn holds_word(text: Seq<char>, word: Seq<char>) -> bool {
    exists|at: int| #[trigger] stands_at(text, word, at)
}

/// Whether a text spells a word of small letters, in capitals or not.
pub open spec fn spells(text: Seq<char>, word: Seq<char>) -> bool {
    &&& text.len() == word.len()
    &&& forall|k: int|
        0 <= k < word.len() ==> text[k] == #[trigger] word[k] || ('a' <= word[k] <= 'z'
            && text[k] as int + 32 == word[k] as int)
}

/// Whether a text is nothing but white space.
pub open spec fn blank(text: Seq<char>) -> bool {
    forall|i: int| 0 <= i < text.len() ==> white_space(#[trigger] text[i])
}

/// White space is tab, line feed, vertical tab, form feed, carriage return, space, and
/// the wider spaces and line separators of Unicode.
pub proof fn law_white_space(c: char)
    ensures
        white_space(c) <==> ({
            let code = c as u32;
            9 <= code <= 13 || code == 32 || code == 133 || code == 160 || code == 5760 || 8192
                <= code <= 8202 || code == 8232 || code == 8233 || code == 8239 || code == 8287
                || code == 12288
        }),
{
}

/// A text contains another where that stands in it letter by letter, and only there.
pub proof fn law_contains(text: Seq<char>, word: Seq<char>)
    ensures
        contains(text, word) <==> holds_word(text, word),
{
    if contains(text, word) {
        let at = choose|at: int| occurs_at(text, word, at);
        assert forall|k: int| 0 <= k < word.len() implies text[at + k] == #[trigger] word[k] by {
            assert(text.subrange(at, at + word.len())[k] == text[at + k]);
        }
        assert(stands_at(text, word, at));
    }
    if holds_word(text, word) {
        let at = choose|at: int| stands_at(text, word, at);
        assert(text.subrange(at, at + word.len()) =~= word);
        assert(occurs_at(text, word, at));
    }
}

/// Texts are the same but for case where each letter is the same, or its capital.
pub proof fn law_same_but_case(text: Seq<char>, word: Seq<char>)
    requires
        forall|k: int| 0 <= k < word.len() ==> !('A' <= #[trigger] word[k] <= 'Z'),
    ensures
        same_but_case(text, word) <==> spells(text, word),
{
    if same_but_case(text, word) {
        assert forall|k: int| 0 <= k < word.len() implies text[k] == #[trigger] word[k] || ('a'
            <= word[k] <= 'z' && text[k] as int + 32 == word[k] as int) by {
            assert(ascii_lower(text[k]) == ascii_lower(word[k]));
        }
    }
    if spells(text, word) {
        assert forall|k: int| 0 <= k < text.len() implies ascii_lower(#[trigger] text[k])
            == ascii_lower(word[k]) by {
            assert(text[k] == word[k] || ('a' <= word[k] <= 'z' && text[k] as int + 32
                == word[k] as int));
        }
    }
}

/// The capital of a small letter comes 32 places before it, and every other character is
/// kept.
pub proof fn law_capitals(c: char)
    ensures
        97 <= c as int <= 122 ==> ascii_upper(c) as int == c as int - 32,
        !(97 <= c as int <= 122) ==> ascii_upper(c) == c,
{
}

/// White space around a text is dropped, and nothing else: what lies between two
/// characters that are none is kept as it is.
pub proof fn law_trimming(before: Seq<char>, core: Seq<char>, after: Seq<char>)
    requires
        blank(before),
        blank(after),
        core.len() > 0 ==> !white_space(core[0]) && !white_space(core.last()),
    ensures
        trimmed(before + core + after) == core,
{
    let text = before + core + after;
    let ends = law_trimming_keeps_the_rest(text);
    let first = before.len() as int;
    let last = first + core.len();
    assert forall|i: int| 0 <= i < first || last <= i < text.len() implies white_space(
        #[trigger] text[i],
    ) by {
        if i < first {
            assert(text[i] == before[i]);
        } else {
            assert(text[i] == after[i - last]);
        }
    }
    if core.len() > 0 {
        assert(text[first] == core[0]);
        assert(text[last - 1] == core.last());
        assert(ends.0 == first);
        assert(ends.1 == last);
        assert(text.subrange(first, last) =~= core);
    } else {
        assert(ends.0 == ends.1);
        assert(text.subrange(ends.0, ends.1) =~= core);
    }
}

/// A text without white space is logged as it is.
pub proof fn law_one_line_keeps_words(word: Seq<char>)
    requires
        forall|i: int| 0 <= i < word.len() ==> !white_space(#[trigger] word[i]),
    ensures
        one_line(word) == word,
{
    if word.len() > 0 {
        lemma_words_first(word, seq![]);
        assert(word + seq![] =~= word);
        assert(words(word) =~= seq![word]);
    } else {
        assert(one_line(word) =~= word);
    }
}

/// Words that are put together in two parts.
proof fn lemma_joined_concat(left: Seq<Seq<char>>, right: Seq<Seq<char>>)
    requires
        left.len() > 0,
        right.len() > 0,
    ensures
        joined(left + right, seq![' ']) == joined(left, seq![' ']) + seq![' '] + joined(
            right,
            seq![' '],
        ),
    decreases right.len(),
{
    let space = seq![' '];
    let earlier = right.drop_last();
    assert(left + right =~= (left + earlier).push(right.last()));
    lemma_joined_push(left + earlier, right.last(), space);
    if earlier.len() > 0 {
        lemma_joined_concat(left, earlier);
        assert(right =~= earlier.push(right.last()));
        lemma_joined_push(earlier, right.last(), space);
        assert(joined(left + right, space) =~= joined(left, space) + space + joined(right, space));
    } else {
        assert(left + earlier =~= left);
        assert(joined(right, space) == right[0]);
    }
}

/// A text is logged without a line only where it is nothing but white space.
proof fn lemma_one_line_empty(text: Seq<char>)
    ensures
        one_line(text).len() == 0 <==> words(text).len() == 0,
{
    crate::text::lemma_words_solid(text);
    crate::text::lemma_joined_tidy(words(text));
}

/// White space within a text is logged as one space, however much of it there is: what
/// stands before and after it is logged as by itself, with a space in between where
/// something stands on both sides.
pub proof fn law_one_line_of_parts(left: Seq<char>, space: char, right: Seq<char>)
    requires
        white_space(space),
    ensures
        one_line(left + seq![space] + right) == (if one_line(left).len() == 0 {
            one_line(right)
        } else if one_line(right).len() == 0 {
            one_line(left)
        } else {
            one_line(left) + seq![' '] + one_line(right)
        }),
{
    let rest = seq![space] + right;
    assert(left + seq![space] + right =~= left + rest);
    lemma_words_concat(left, rest);
    assert(rest.skip(1) =~= right);
    assert(words(rest) == words(right));
    lemma_one_line_empty(left);
    lemma_one_line_empty(right);
    if words(left).len() == 0 {
        assert(words(left) + words(right) =~= words(right));
    } else if words(right).len() == 0 {
        assert(words(left) + words(right) =~= words(left));
    } else {
        lemma_joined_concat(words(left), words(right));
    }
}

/// A text in which a mark does not stand is kept, and one in which it does is changed at
/// its first place, and after that as the rest of the text by itself.
pub proof fn law_replacing(text: Seq<char>, mark: Seq<char>, by: Seq<char>, at: int)
    requires
        mark.len() > 0,
    ensures
        !holds_word(text, mark) ==> replaced(text, mark, by) == text,
        stands_at(text, mark, at) && (forall|i: int|
            0 <= i < at ==> !(#[trigger] stands_at(text, mark, i))) ==> replaced(text, mark, by)
            == text.take(at) + by + replaced(text.skip(at + mark.len()), mark, by),
    decreases text.len(),
{
    if text.len() > 0 {
        let rest = text.skip(1);
        lemma_contains_at(text, mark, 0);
        if !holds_word(text, mark) {
            assert forall|i: int| !(#[trigger] stands_at(rest, mark, i)) by {
                if stands_at(rest, mark, i) {
                    lemma_stands_after_first(text, mark, i);
                }
            }
            law_replacing(rest, mark, by, 0);
            assert(seq![text[0]] + rest =~= text);
            assert(!stands_at(text, mark, 0));
        }
        if stands_at(text, mark, at) && (forall|i: int|
            0 <= i < at ==> !(#[trigger] stands_at(text, mark, i))) {
            if at == 0 {
                assert(text.take(0) + by =~= by);
            } else {
                assert(!stands_at(text, mark, 0));
                assert forall|i: int| 0 <= i < at - 1 implies !(#[trigger] stands_at(
                    rest,
                    mark,
                    i,
                )) by {
                    if stands_at(rest, mark, i) {
                        lemma_stands_after_first(text, mark, i);
                    }
                }
                assert forall|k: int| 0 <= k < mark.len() implies rest[at - 1 + k]
                    == #[trigger] mark[k] by {
                    assert(text[at + k] == mark[k]);
                }
                assert(stands_at(rest, mark, at - 1));
                law_replacing(rest, mark, by, at - 1);
                assert(seq![text[0]] + rest.take(at - 1) =~= text.take(at));
                assert(rest.skip(at - 1 + mark.len()) =~= text.skip(at + mark.len()));
                assert(replaced(text, mark, by) =~= text.take(at) + by + replaced(
                    text.skip(at + mark.len()),
                    mark,
                    by,
                ));
            }
        }
    }
}

proof fn lemma_stands_after_first(text: Seq<char>, mark: Seq<char>, i: int)
    requires
        text.len() > 0,
        stands_at(text.skip(1), mark, i),
    ensures
        stands_at(text, mark, i + 1),
{
    assert forall|k: int| 0 <= k < mark.len() implies text[i + 1 + k] == #[trigger] mark[k] by {
        assert(text.skip(1)[i + k] == mark[k]);
    }
}

proof fn lemma_contains_at(text: Seq<char>, word: Seq<char>, at: int)
    ensures
        occurs_at(text, word, at) <==> stands_at(text, word, at),
{
    if occurs_at(text, word, at) {
        assert forall|k: int| 0 <= k < word.len() implies text[at + k] == #[trigger] word[k] by {
            assert(text.subrange(at, at + word.len())[k] == text[at + k]);
        }
    }
    if stands_at(text, word, at) {
        assert(text.subrange(at, at + word.len()) =~= word);
    }
}

/// A character is taken for white space where it is, a word is found where it stands in a
/// text, and two texts are taken for the same where they differ in case alone.
pub proof fn law_text_tests(
    c: char,
    blank_found: bool,
    text: &str,
    word: &str,
    found: bool,
    same: bool,
)
    requires
        call_ensures(is_white_space, (c,), blank_found),
        call_ensures(contains_text, (text, word), found),
        call_ensures(eq_ignore_case, (text, word), same),
    ensures
        blank_found <==> white_space(c),
        found <==> holds_word(text@, word@),
        same <==> same_but_case(text@, word@),
{
    law_contains(text@, word@);
}

/// What is trimmed has lost the white space around it and nothing else, and what is put on
/// one line, and what is replaced, is so.
pub proof fn law_text_changes(
    text: &str,
    trimmed_text: String,
    line: String,
    mark: &str,
    by: &str,
    changed: String,
) -> (ends: (int, int))
    requires
        call_ensures(trim, (text,), trimmed_text),
        call_ensures(words_on_one_line, (text,), line),
        call_ensures(replace_all, (text, mark, by), changed),
    ensures
        0 <= ends.0 <= ends.1 <= text@.len(),
        trimmed_text@ == text@.subrange(ends.0, ends.1),
        forall|i: int|
            0 <= i < ends.0 || ends.1 <= i < text@.len() ==> white_space(#[trigger] text@[i]),
        ends.0 < ends.1 ==> !white_space(text@[ends.0]) && !white_space(text@[ends.1 - 1]),
        line@ == one_line(text@),
        changed@ == replaced(text@, mark@, by@),
{
    law_trimming_keeps_the_rest(text@)
}

/// The characters of a text come in order, and so do those that a text is made of.
pub proof fn law_characters(text: &str, chars: Vec<char>, from: usize, to: usize, part: String)
    requires
        call_ensures(chars_of, (text,), chars),
        call_ensures(string_of, (&chars, from, to), part),
    ensures
        chars@ == text@,
        part@ == text@.subrange(from as int, to as int),
{
}

} // verus!
