//! Properties that relate the reference functions, the filter and the text.

use crate::filter::{
    in_range_pred, lemma_select_push, query_of, select_verses, smart_verses, verse_in_range,
    QueryView,
};
use crate::model::{BibleView, VerseView};
use crate::reference::chapter_ref_of;
use crate::text::{
    contains_seq, first_index, lemma_first_index_bounds, lemma_split_first, parse_number, split_on,
};
use vstd::prelude::*;

verus! {

/// Every verse answers the book and chapter of `q`, and the verse at
/// position `i` carries the number `i + 1`.
pub open spec fn numbered_from_one(verses: Seq<VerseView>, q: QueryView) -> bool {
    forall|i: int|
        0 <= i < verses.len() ==> {
            &&& contains_seq((#[trigger] verses[i]).reference, q.book)
            &&& verses[i].chapter == q.chapter
            &&& parse_number(verses[i].verse_num) == Some((i + 1) as nat)
        }
}

/// The verses numbered `start` to `end`, both inclusive, of a run numbered
/// from one: the part of the run that the range overlaps.
pub open spec fn numbered_between(verses: Seq<VerseView>, start: nat, end: nat) -> Seq<VerseView> {
    let first = if start < 1 {
        1
    } else {
        start as int
    };
    let last = if end > verses.len() {
        verses.len() as int
    } else {
        end as int
    };
    if first <= last {
        verses.subrange(first - 1, last)
    } else {
        Seq::empty()
    }
}

/// Selecting a range from verses numbered 1 to N gives exactly the verses
/// whose number lies both in the range and in 1 to N, in their order.
pub proof fn lemma_select_numbered(verses: Seq<VerseView>, q: QueryView)
    requires
        numbered_from_one(verses, q),
    ensures
        select_verses(verses, q) == numbered_between(verses, q.start, q.end),
    decreases verses.len(),
{
    if verses.len() == 0 {
        reveal(Seq::filter);
        assert(select_verses(verses, q) =~= Seq::<VerseView>::empty());
        assert(numbered_between(verses, q.start, q.end) =~= Seq::<VerseView>::empty());
    } else {
        let init = verses.drop_last();
        let v = verses.last();
        assert forall|i: int| 0 <= i < init.len() implies {
            &&& contains_seq((#[trigger] init[i]).reference, q.book)
            &&& init[i].chapter == q.chapter
            &&& parse_number(init[i].verse_num) == Some((i + 1) as nat)
        } by {
            assert(init[i] == verses[i]);
        }
        lemma_select_numbered(init, q);
        lemma_select_push(init, v, q);
        assert(init.push(v) =~= verses);
        assert(verse_in_range(v, q) <==> q.start <= verses.len() <= q.end);
        assert(select_verses(verses, q) =~= numbered_between(verses, q.start, q.end));
    }
}

/// No verse of the run is in the book and chapter of `q`.
pub open spec fn none_in_chapter(verses: Seq<VerseView>, q: QueryView) -> bool {
    forall|i: int|
        0 <= i < verses.len() ==> !(contains_seq((#[trigger] verses[i]).reference, q.book)
            && verses[i].chapter == q.chapter)
}

/// Nothing is selected from verses of other books and chapters.
pub proof fn lemma_select_elsewhere(verses: Seq<VerseView>, q: QueryView)
    requires
        none_in_chapter(verses, q),
    ensures
        select_verses(verses, q) == Seq::<VerseView>::empty(),
    decreases verses.len(),
{
    reveal(Seq::filter);
    if verses.len() > 0 {
        let init = verses.drop_last();
        assert forall|i: int| 0 <= i < init.len() implies !(contains_seq(
            (#[trigger] init[i]).reference,
            q.book,
        ) && init[i].chapter == q.chapter) by {
            assert(init[i] == verses[i]);
        }
        lemma_select_elsewhere(init, q);
        assert(!verse_in_range(verses.last(), q));
    }
}

/// In a text that holds, between verses of other books and chapters, the
/// verses of the reference's book and chapter numbered from one, a reference
/// with a verse segment names exactly the verses numbered inside its range,
/// in the order of the text.
pub proof fn lemma_reference_selects_range(
    bible: BibleView,
    reference: Seq<char>,
    before: Seq<VerseView>,
    numbered: Seq<VerseView>,
    after: Seq<VerseView>,
)
    requires
        query_of(reference) is Some,
        bible.verses() == before + numbered + after,
        none_in_chapter(before, query_of(reference)->0),
        numbered_from_one(numbered, query_of(reference)->0),
        none_in_chapter(after, query_of(reference)->0),
    ensures
        smart_verses(bible, reference) == numbered_between(
            numbered,
            query_of(reference)->0.start,
            query_of(reference)->0.end,
        ),
{
    let q = query_of(reference)->0;
    let pred = in_range_pred(q);
    lemma_select_elsewhere(before, q);
    lemma_select_numbered(numbered, q);
    lemma_select_elsewhere(after, q);
    Seq::filter_distributes_over_add(before, numbered, pred);
    Seq::filter_distributes_over_add(before + numbered, after, pred);
    assert(Seq::<VerseView>::empty() + select_verses(numbered, q) + Seq::<VerseView>::empty()
        =~= select_verses(numbered, q));
}

/// A verse whose number is not numeric is named by no reference, whatever
/// the range.
pub proof fn lemma_unnumbered_verse_excluded(bible: BibleView, reference: Seq<char>, v: VerseView)
    requires
        parse_number(v.verse_num) is None,
    ensures
        !smart_verses(bible, reference).contains(v),
{
    let named = smart_verses(bible, reference);
    if named.contains(v) {
        let q = query_of(reference)->0;
        let i = choose|i: int| 0 <= i < named.len() && named[i] == v;
        bible.verses().lemma_filter_pred(in_range_pred(q), i);
    }
}

/// Every verse that a reference names is a verse of the text and answers the
/// reference's query.
pub proof fn lemma_named_verses_answer(bible: BibleView, reference: Seq<char>, i: int)
    requires
        0 <= i < smart_verses(bible, reference).len(),
    ensures
        query_of(reference) is Some,
        verse_in_range(smart_verses(bible, reference)[i], query_of(reference)->0),
        bible.verses().contains(smart_verses(bible, reference)[i]),
{
    let q = query_of(reference)->0;
    let all = bible.verses();
    all.lemma_filter_pred(in_range_pred(q), i);
    all.lemma_filter_contains_rev(in_range_pred(q), smart_verses(bible, reference)[i]);
}

/// A reference of exactly two segments, book and chapter, is its own
/// chapter-level reference and names no verses.
pub proof fn lemma_chapter_only_reference(bible: BibleView, reference: Seq<char>)
    requires
        split_on(reference, '.').len() == 2,
    ensures
        chapter_ref_of(reference) == reference,
        query_of(reference) is None,
        smart_verses(bible, reference).len() == 0,
{
    lemma_split_first(reference, '.');
    lemma_first_index_bounds(reference, '.');
    let i = first_index(reference, '.');
    let rest = reference.skip(i + 1);
    lemma_split_first(rest, '.');
    assert(split_on(reference, '.')[1] == rest);
    assert(reference =~= reference.take(i) + seq!['.'] + rest);
}

/// The chapter-level reference of a reference with a verse segment keeps
/// the book and chapter that the filter reads from it.
pub proof fn lemma_chapter_ref_keeps_book_and_chapter(reference: Seq<char>)
    requires
        query_of(reference) is Some,
    ensures
        chapter_ref_of(reference) == query_of(reference)->0.book + seq!['.'] + query_of(
            reference,
        )->0.chapter,
{
}

} // verus!
