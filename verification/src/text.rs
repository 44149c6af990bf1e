//! Text as sequences of characters: the relations that filters and the
//! filter grammar are stated over, and the `str` operations that decide them.

use vstd::prelude::*;

verus! {

/// An optional text by its characters.
pub open spec fn text_of(text: Option<String>) -> Option<Seq<char>> {
    match text {
        Some(text) => Some(text@),
        None => None,
    }
}

/// `needle` stands in `hay` at position `at`.
pub open spec fn occurs_at(needle: Seq<char>, hay: Seq<char>, at: int) -> bool {
    &&& 0 <= at
    &&& at + needle.len() <= hay.len()
    &&& hay.subrange(at, at + needle.len()) == needle
}

/// `needle` stands somewhere in `hay`.
pub open spec fn occurs_in(needle: Seq<char>, hay: Seq<char>) -> bool {
    exists|at: int| occurs_at(needle, hay, at)
}

/// The position of the first `mark` in `text`, or the length of `text` where
/// it holds none.
pub open spec fn first_at(text: Seq<char>, mark: char) -> int
    decreases text.len(),
{
    if text.len() == 0 || text[0] == mark {
        0
    } else {
        1 + first_at(text.skip(1), mark)
    }
}

/// The parts of `text` between its `mark`s, in order. A text without a mark
/// is its own single part, the empty text included.
pub open spec fn pieces(text: Seq<char>, mark: char) -> Seq<Seq<char>>
    decreases text.len(),
{
    let cut = first_at(text, mark);
    if 0 <= cut < text.len() {
        seq![text.take(cut)] + pieces(text.skip(cut + 1), mark)
    } else {
        seq![text]
    }
}

/// `first_at` stays within the text, finds a mark where it stops early, and
/// passes none on its way.
pub proof fn lemma_first_at(text: Seq<char>, mark: char)
    ensures
        0 <= first_at(text, mark) <= text.len(),
        first_at(text, mark) < text.len() ==> text[first_at(text, mark)] == mark,
        !text.take(first_at(text, mark)).contains(mark),
        first_at(text, mark) == text.len() <==> !text.contains(mark),
    decreases text.len(),
{
    let cut = first_at(text, mark);
    if text.len() == 0 || text[0] == mark {
        assert(text.take(0).len() == 0);
    } else {
        let rest = text.skip(1);
        lemma_first_at(rest, mark);
        let inner = first_at(rest, mark);
        assert forall|i: int| 0 <= i < cut implies text.take(cut)[i] != mark by {
            if i > 0 {
                assert(rest.take(inner)[i - 1] == text[i]);
                assert(rest.take(inner).contains(text[i]));
            }
        }
        if inner < rest.len() {
            assert(text[cut] == rest[inner]);
        }
        if text.contains(mark) {
            let at = choose|at: int| 0 <= at < text.len() && text[at] == mark;
            assert(rest[at - 1] == mark);
            assert(rest.contains(mark));
        }
    }
    if cut < text.len() {
        assert(text.contains(mark));
    }
}

/// A text that is a mark-free head, then the mark, then a tail has its first
/// mark right after the head.
pub proof fn lemma_first_at_of_parts(head: Seq<char>, mark: char, tail: Seq<char>)
    requires
        !head.contains(mark),
    ensures
        first_at(head + seq![mark] + tail, mark) == head.len(),
        (head + seq![mark] + tail).take(head.len() as int) == head,
        (head + seq![mark] + tail).skip(head.len() as int + 1) == tail,
    decreases head.len(),
{
    let text = head + seq![mark] + tail;
    assert(text.take(head.len() as int) =~= head);
    assert(text.skip(head.len() as int + 1) =~= tail);
    if head.len() == 0 {
        assert(text[0] == mark);
    } else {
        assert(text[0] == head[0]);
        assert(head.contains(head[0]));
        let shorter = head.skip(1);
        assert forall|i: int| 0 <= i < shorter.len() implies shorter[i] != mark by {
            assert(head.contains(head[i + 1]));
        }
        assert(text.skip(1) =~= shorter + seq![mark] + tail);
        lemma_first_at_of_parts(shorter, mark, tail);
    }
}

/// A text that is a mark-free head, then the mark, then a tail has the head
/// as its first piece, followed by the pieces of the tail.
pub proof fn lemma_pieces_of_parts(head: Seq<char>, mark: char, tail: Seq<char>)
    requires
        !head.contains(mark),
    ensures
        pieces(head + seq![mark] + tail, mark) == seq![head] + pieces(tail, mark),
{
    lemma_first_at_of_parts(head, mark, tail);
}

/// A text without a mark is its own single piece.
pub proof fn lemma_pieces_of_whole(text: Seq<char>, mark: char)
    requires
        !text.contains(mark),
    ensures
        pieces(text, mark) == seq![text],
{
    lemma_first_at(text, mark);
}

/// Compares two string slices with `==`: true exactly when they hold the same
/// characters.
#[verifier::external_body]
pub(crate) fn same_text(left: &str, right: &str) -> (same: bool)
    ensures
        same == (left@ == right@),
{
    left == right
}

/// Calls `str::starts_with` with a string pattern: true exactly when `prefix`
/// matches the beginning of `text`.
#[verifier::external_body]
pub(crate) fn begins_with(text: &str, prefix: &str) -> (yes: bool)
    ensures
        yes == prefix@.is_prefix_of(text@),
{
    text.starts_with(prefix)
}

/// Calls `str::ends_with` with a string pattern: true exactly when `suffix`
/// matches the end of `text`.
#[verifier::external_body]
pub(crate) fn finishes_with(text: &str, suffix: &str) -> (yes: bool)
    ensures
        yes == suffix@.is_suffix_of(text@),
{
    text.ends_with(suffix)
}

/// Calls `str::contains` with a string pattern: true exactly when `needle`
/// matches a sub-slice of `text`.
#[verifier::external_body]
pub(crate) fn includes(text: &str, needle: &str) -> (yes: bool)
    ensures
        yes == occurs_in(needle@, text@),
{
    text.contains(needle)
}

/// Calls `str::split_once` with a character: `None` where `text` holds no
/// `mark`, else what stands before the first `mark` and what stands after it.
#[verifier::external_body]
pub(crate) fn cut_at_first(text: &str, mark: char) -> (parts: Option<(&str, &str)>)
    ensures
        match parts {
            None => !text@.contains(mark),
            Some((head, tail)) => !head@.contains(mark) && text@ == head@ + seq![mark] + tail@,
        },
{
    text.split_once(mark)
}

/// Calls `str::strip_prefix` with a character: where `text` starts with
/// `mark`, what follows it; else `None`.
#[verifier::external_body]
pub(crate) fn without_leading(text: &str, mark: char) -> (rest: Option<&str>)
    ensures
        match rest {
            None => text@.len() == 0 || text@[0] != mark,
            Some(rest) => text@.len() > 0 && text@[0] == mark && rest@ == text@.skip(1),
        },
{
    text.strip_prefix(mark)
}

} // verus!
