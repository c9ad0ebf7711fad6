//! Counting how often a word stands in a text.

use vstd::prelude::*;

verus! {

/// Whether `word` stands in `text` from position `at` on.
pub open spec fn occurs_at(text: Seq<char>, word: Seq<char>, at: int) -> bool {
    0 <= at && at + word.len() <= text.len() && text.subrange(at, at + word.len()) == word
}

/// At how many positions before `below` the word stands in the text.
pub open spec fn occurrences_below(text: Seq<char>, word: Seq<char>, below: int) -> nat
    decreases below,
{
    if below <= 0 {
        0
    } else {
        occurrences_below(text, word, below - 1) + if occurs_at(text, word, below - 1) {
            1nat
        } else {
            0nat
        }
    }
}

/// At how many positions the word stands in the text. Positions may overlap.
pub open spec fn occurrences(text: Seq<char>, word: Seq<char>) -> nat {
    occurrences_below(text, word, text.len() as int)
}

/// Whether none of the last `n` characters of a text is `c`.
pub open spec fn tail_is_clear_of(text: Seq<char>, c: char, n: int) -> bool {
    forall|i: int| 0 <= i < text.len() && text.len() - n <= i ==> text[i] != c
}

/// Whether no character of a text is `c`.
pub open spec fn is_clear_of(text: Seq<char>, c: char) -> bool {
    forall|i: int| 0 <= i < text.len() ==> text[i] != c
}

/// A word stands only where its first character stands.
pub proof fn lemma_occurrence_starts_with_first(text: Seq<char>, word: Seq<char>, at: int)
    requires
        word.len() > 0,
        occurs_at(text, word, at),
    ensures
        0 <= at < text.len(),
        text[at] == word[0],
{
    assert(text.subrange(at, at + word.len())[0] == text[at]);
}

/// Over a stretch of positions where the first character of the word does
/// not stand, the count does not move.
pub proof fn lemma_no_occurrence_without_first(
    text: Seq<char>,
    word: Seq<char>,
    from: int,
    to: int,
)
    requires
        word.len() > 0,
        from <= to,
        forall|i: int| from <= i < to && 0 <= i < text.len() ==> text[i] != word[0],
    ensures
        occurrences_below(text, word, to) == occurrences_below(text, word, from),
    decreases to - from,
{
    if from < to {
        lemma_no_occurrence_without_first(text, word, from, to - 1);
        if occurs_at(text, word, to - 1) {
            lemma_occurrence_starts_with_first(text, word, to - 1);
        }
    }
}

/// Past the last position where the word still fits, the count does not
/// move.
pub proof fn lemma_no_occurrence_past_fit(text: Seq<char>, word: Seq<char>, from: int, to: int)
    requires
        from <= to,
        text.len() - word.len() < from,
    ensures
        occurrences_below(text, word, to) == occurrences_below(text, word, from),
    decreases to - from,
{
    if from < to {
        lemma_no_occurrence_past_fit(text, word, from, to - 1);
    }
}

/// Where the word fits into the front part of a text at every position
/// counted, what follows the front part does not matter.
pub proof fn lemma_occurrences_in_front(
    front: Seq<char>,
    back: Seq<char>,
    word: Seq<char>,
    below: int,
)
    requires
        below <= 0 || below - 1 + word.len() <= front.len(),
    ensures
        occurrences_below(front + back, word, below) == occurrences_below(front, word, below),
    decreases below,
{
    if below > 0 {
        lemma_occurrences_in_front(front, back, word, below - 1);
        let at = below - 1;
        let whole = front + back;
        assert(whole.subrange(at, at + word.len()) == front.subrange(at, at + word.len()));
    }
}

/// The positions of the back part of a text count as they do in the back
/// part alone.
pub proof fn lemma_occurrences_in_back(
    front: Seq<char>,
    back: Seq<char>,
    word: Seq<char>,
    below: int,
)
    requires
        0 <= below,
    ensures
        occurrences_below(front + back, word, front.len() + below) == occurrences_below(
            front + back,
            word,
            front.len() as int,
        ) + occurrences_below(back, word, below),
    decreases below,
{
    if below > 0 {
        lemma_occurrences_in_back(front, back, word, below - 1);
        let at = below - 1;
        let whole = front + back;
        if at + word.len() <= back.len() {
            assert(whole.subrange(front.len() + at, front.len() + at + word.len())
                == back.subrange(at, at + word.len()));
        }
        assert(occurs_at(whole, word, front.len() + at) == occurs_at(back, word, at));
    }
}

/// Where the front part does not end in a position at which the word could
/// start and run over into the back part, the counts of the two parts add
/// up.
pub proof fn lemma_occurrences_of_joined(front: Seq<char>, back: Seq<char>, word: Seq<char>)
    requires
        word.len() > 0,
        tail_is_clear_of(front, word[0], word.len() - 1),
    ensures
        occurrences(front + back, word) == occurrences(front, word) + occurrences(back, word),
{
    let whole = front + back;
    let fit = if front.len() - word.len() + 1 > 0 {
        front.len() - word.len() + 1
    } else {
        0
    };
    lemma_occurrences_in_back(front, back, word, back.len() as int);
    assert forall|i: int| fit <= i < front.len() && 0 <= i < whole.len() implies whole[i]
        != word[0] by {
        assert(whole[i] == front[i]);
    }
    lemma_no_occurrence_without_first(whole, word, fit, front.len() as int);
    lemma_occurrences_in_front(front, back, word, fit);
    lemma_no_occurrence_past_fit(front, word, fit, front.len() as int);
}

/// A text that does not hold the first character of a word does not hold
/// the word.
pub proof fn lemma_clear_text_holds_no_word(text: Seq<char>, word: Seq<char>)
    requires
        word.len() > 0,
        is_clear_of(text, word[0]),
    ensures
        occurrences(text, word) == 0,
{
    lemma_no_occurrence_without_first(text, word, 0, text.len() as int);
}

} // verus!
