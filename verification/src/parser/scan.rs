//! Reading a line character by character: keywords at the start of a text
//! and the runs of blanks between tokens.

use vstd::prelude::*;

verus! {

/// The characters that separate tokens: space and tab.
pub open spec fn is_blank(c: char) -> bool {
    c == ' ' || c == '\t'
}

/// The number of blanks that `text` starts with.
pub open spec fn blank_run(text: Seq<char>) -> nat
    decreases text.len(),
{
    if text.len() > 0 && is_blank(text[0]) {
        1 + blank_run(text.drop_first())
    } else {
        0
    }
}

/// Whether `text` is made of blanks alone.
pub open spec fn all_blank(text: Seq<char>) -> bool {
    forall|i: int| 0 <= i < text.len() ==> is_blank(#[trigger] text[i])
}

/// A text that starts with `count` blanks, followed by the end of the text or
/// by a character that is no blank, has a blank run of exactly `count`.
pub proof fn lemma_blank_run_is(text: Seq<char>, count: nat)
    requires
        count <= text.len(),
        all_blank(text.take(count as int)),
        count < text.len() ==> !is_blank(text[count as int]),
    ensures
        blank_run(text) == count,
    decreases count,
{
    if count > 0 {
        let rest = text.drop_first();
        assert(text.take(count as int)[0] == text[0]);
        assert forall|i: int| 0 <= i < count - 1 implies is_blank(
            #[trigger] rest.take(count - 1)[i],
        ) by {
            assert(rest.take(count - 1)[i] == text.take(count as int)[i + 1]);
        }
        lemma_blank_run_is(rest, (count - 1) as nat);
    }
}

/// The blank run of a text lies within the text, is made of blanks, and ends
/// at the end of the text or before a character that is no blank.
pub proof fn lemma_blank_run_bounds(text: Seq<char>)
    ensures
        blank_run(text) <= text.len(),
        all_blank(text.take(blank_run(text) as int)),
        blank_run(text) < text.len() ==> !is_blank(text[blank_run(text) as int]),
    decreases text.len(),
{
    if text.len() > 0 && is_blank(text[0]) {
        let rest = text.drop_first();
        lemma_blank_run_bounds(rest);
        let count = blank_run(text);
        assert forall|i: int| 0 <= i < count implies is_blank(
            #[trigger] text.take(count as int)[i],
        ) by {
            if i > 0 {
                assert(text.take(count as int)[i] == rest.take(count - 1)[i - 1]);
            }
        }
    }
}

/// Whether `input` starts with `word`.
pub fn starts_with(input: &str, word: &str) -> (found: bool)
    ensures
        found == word@.is_prefix_of(input@),
{
    let input_len = input.unicode_len();
    let word_len = word.unicode_len();
    if word_len > input_len {
        return false;
    }
    let mut i: usize = 0;
    while i < word_len
        invariant
            i <= word_len <= input_len,
            input_len == input@.len(),
            word_len == word@.len(),
            forall|j: int| 0 <= j < i ==> input@[j] == word@[j],
        decreases word_len - i,
    {
        if input.get_char(i) != word.get_char(i) {
            assert(input@.subrange(0, word_len as int)[i as int] != word@[i as int]);
            return false;
        }
        i += 1;
    }
    assert(word@ =~= input@.subrange(0, word_len as int));
    true
}

/// Counts the blanks that `input` starts with.
pub fn leading_blanks(input: &str) -> (count: usize)
    ensures
        count == blank_run(input@),
        count <= input@.len(),
{
    let length = input.unicode_len();
    let mut count: usize = 0;
    while count < length
        invariant
            count <= length,
            length == input@.len(),
            all_blank(input@.take(count as int)),
        decreases length - count,
    {
        let c = input.get_char(count);
        if c != ' ' && c != '\t' {
            proof {
                lemma_blank_run_is(input@, count as nat);
            }
            return count;
        }
        assert forall|i: int| 0 <= i < count + 1 implies is_blank(
            #[trigger] input@.take(count + 1)[i],
        ) by {
            if i < count {
                assert(input@.take(count + 1)[i] == input@.take(count as int)[i]);
            }
        }
        count += 1;
    }
    proof {
        lemma_blank_run_is(input@, count as nat);
    }
    count
}

/// The part of `input` from its character `from` on.
pub fn skip_chars(input: &str, from: usize) -> (rest: &str)
    requires
        from <= input@.len(),
    ensures
        rest@ == input@.skip(from as int),
        rest@.len() + from == input@.len() <= usize::MAX,
{
    input.substring_char(from, input.unicode_len())
}

} // verus!
