//! Selection of the verses that a canonical reference names.

use crate::model::{all_verses, verse_views, Bible, BibleView, ChapterView, Verse, VerseView};
use crate::text::{
    chars_of, contains_chars, contains_seq, lemma_split_first, parse_number, parse_usize,
    same_chars, slice_of, split_chars, split_on, views_of,
};
use vstd::prelude::*;
use vstd::string::*;

verus! {

/// What a three-segment canonical reference asks for.
#[derive(Debug, PartialEq, Eq)]
pub struct VerseQuery {
    /// Book token; matched as a substring of a verse's reference.
    pub book: Vec<char>,
    /// Chapter segment; matched exactly.
    pub chapter: Vec<char>,
    /// First verse number of the range, inclusive.
    pub start: usize,
    /// Last verse number of the range, inclusive.
    pub end: usize,
}

/// Mathematical content of a [`VerseQuery`].
pub ghost struct QueryView {
    pub book: Seq<char>,
    pub chapter: Seq<char>,
    pub start: nat,
    pub end: nat,
}

impl View for VerseQuery {
    type V = QueryView;

    open spec fn view(&self) -> QueryView {
        QueryView {
            book: self.book@,
            chapter: self.chapter@,
            start: self.start as nat,
            end: self.end as nat,
        }
    }
}

/// Start of the range that a verse segment names: its first dash-separated
/// piece read as a number, or 1 when that piece is no number.
pub open spec fn range_start(segment: Seq<char>) -> nat {
    match parse_number(split_on(segment, '-')[0]) {
        Some(n) => n,
        None => 1,
    }
}

/// End of the range that a verse segment names: its second dash-separated
/// piece read as a number; the start when there is no such piece or number.
pub open spec fn range_end(segment: Seq<char>) -> nat {
    let pieces = split_on(segment, '-');
    if pieces.len() > 1 {
        match parse_number(pieces[1]) {
            Some(n) => n,
            None => range_start(segment),
        }
    } else {
        range_start(segment)
    }
}

/// The query that a canonical reference stands for; `None` when it has fewer
/// than three dot-separated segments.
pub open spec fn query_of(reference: Seq<char>) -> Option<QueryView> {
    let segments = split_on(reference, '.');
    if segments.len() > 2 {
        Some(
            QueryView {
                book: segments[0],
                chapter: segments[1],
                start: range_start(segments[2]),
                end: range_end(segments[2]),
            },
        )
    } else {
        None
    }
}

/// Whether a verse answers a query: book token inside its reference, chapter
/// equal, and a numeric verse number inside the range.
pub open spec fn verse_in_range(v: VerseView, q: QueryView) -> bool {
    &&& contains_seq(v.reference, q.book)
    &&& v.chapter == q.chapter
    &&& match parse_number(v.verse_num) {
        Some(n) => q.start <= n <= q.end,
        None => false,
    }
}

pub open spec fn in_range_pred(q: QueryView) -> spec_fn(VerseView) -> bool {
    |v: VerseView| verse_in_range(v, q)
}

/// The verses among `verses` that answer `q`, in the same order.
pub open spec fn select_verses(verses: Seq<VerseView>, q: QueryView) -> Seq<VerseView> {
    verses.filter(in_range_pred(q))
}

/// The verses of a text that a canonical reference names; none for a
/// reference without a verse segment.
pub open spec fn smart_verses(bible: BibleView, reference: Seq<char>) -> Seq<VerseView> {
    match query_of(reference) {
        Some(q) => select_verses(bible.verses(), q),
        None => Seq::empty(),
    }
}

/// Selecting from a run extended by one verse keeps the earlier selection and
/// appends the new verse exactly when it answers the query.
pub proof fn lemma_select_push(verses: Seq<VerseView>, v: VerseView, q: QueryView)
    ensures
        select_verses(verses.push(v), q) == if verse_in_range(v, q) {
            select_verses(verses, q).push(v)
        } else {
            select_verses(verses, q)
        },
{
    reveal(Seq::filter);
    assert(verses.push(v).drop_last() =~= verses);
}

/// Reads the verse range out of the third segment of a reference.
pub fn parse_range(segment: &Vec<char>) -> (range: (usize, usize))
    ensures
        range.0 == range_start(segment@),
        range.1 == range_end(segment@),
{
    let pieces = split_chars(segment, '-');
    proof {
        lemma_split_first(segment@, '-');
        assert(views_of(pieces@).len() == pieces@.len());
    }
    assert(views_of(pieces@)[0] == pieces@[0]@);
    let start: usize = match parse_usize(&pieces[0]) {
        Some(n) => n,
        None => 1,
    };
    if pieces.len() > 1 {
        assert(views_of(pieces@)[1] == pieces@[1]@);
        let end: usize = match parse_usize(&pieces[1]) {
            Some(n) => n,
            None => start,
        };
        (start, end)
    } else {
        (start, start)
    }
}

/// Reads a canonical reference as a verse query. A reference with fewer than
/// three dot-separated segments names no verses and gives `None`.
pub fn parse_verse_query(chapter_ref: &str) -> (query: Option<VerseQuery>)
    ensures
        match query {
            Some(q) => query_of(chapter_ref@) == Some(q@),
            None => query_of(chapter_ref@) is None,
        },
        query is Some <==> split_on(chapter_ref@, '.').len() > 2,
{
    let chars = chars_of(chapter_ref);
    let segments = split_chars(&chars, '.');
    assert(views_of(segments@).len() == segments@.len());
    if segments.len() > 2 {
        assert(views_of(segments@)[0] == segments@[0]@);
        assert(views_of(segments@)[1] == segments@[1]@);
        assert(views_of(segments@)[2] == segments@[2]@);
        let range = parse_range(&segments[2]);
        let book = slice_of(&segments[0], 0, segments[0].len());
        let chapter = slice_of(&segments[1], 0, segments[1].len());
        assert(book@ =~= segments@[0]@);
        assert(chapter@ =~= segments@[1]@);
        Some(VerseQuery { book, chapter, start: range.0, end: range.1 })
    } else {
        None
    }
}

/// Whether one verse answers a query.
pub fn verse_matches(verse: &Verse, query: &VerseQuery) -> (hit: bool)
    ensures
        hit == verse_in_range(verse@, query@),
{
    let chapter = chars_of(verse.chapter.as_str());
    if !same_chars(&chapter, &query.chapter) {
        return false;
    }
    let reference = chars_of(verse.reference.as_str());
    if !contains_chars(&reference, &query.book) {
        return false;
    }
    let number = chars_of(verse.verse_num.as_str());
    match parse_usize(&number) {
        Some(n) => query.start <= n && n <= query.end,
        None => false,
    }
}

/// The verses of `bible` that answer `query`, in the order of the text.
pub fn filter_verses(bible: &Bible, query: &VerseQuery) -> (found: Vec<Verse>)
    ensures
        verse_views(found@) == select_verses(bible@.verses(), query@),
{
    let mut found: Vec<Verse> = Vec::new();
    let ghost chapters = bible@.chapters;
    let ghost q = query@;
    let mut i: usize = 0;
    proof {
        reveal(Seq::filter);
        assert(chapters.take(0) =~= Seq::<ChapterView>::empty());
        assert(verse_views(found@) =~= Seq::<VerseView>::empty());
    }
    while i < bible.chapters.len()
        invariant
            chapters == bible@.chapters,
            q == query@,
            i <= chapters.len(),
            verse_views(found@) == select_verses(all_verses(chapters.take(i as int)), q),
        decreases chapters.len() - i,
    {
        let chapter = &bible.chapters[i];
        let ghost before = all_verses(chapters.take(i as int));
        let ghost verses = chapter@.verses;
        let mut j: usize = 0;
        assert(before + verses.take(0) =~= before);
        while j < chapter.verses.len()
            invariant
                q == query@,
                verses == chapter@.verses,
                j <= verses.len(),
                verse_views(found@) == select_verses(before + verses.take(j as int), q),
            decreases verses.len() - j,
        {
            let verse = &chapter.verses[j];
            let ghost earlier = found@;
            proof {
                assert(verses[j as int] == verse@);
                lemma_select_push(before + verses.take(j as int), verse@, q);
                assert((before + verses.take(j as int)).push(verse@) =~= before + verses.take(
                    j + 1,
                ));
            }
            if verse_matches(verse, query) {
                found.push(verse.clone());
                assert(verse_views(found@) =~= verse_views(earlier).push(verse@));
            }
            j += 1;
        }
        proof {
            assert(verses.take(verses.len() as int) =~= verses);
            assert(chapters.take(i + 1).drop_last() =~= chapters.take(i as int));
            assert(chapters.take(i + 1).last() == chapters[i as int]);
        }
        i += 1;
    }
    assert(chapters.take(chapters.len() as int) =~= chapters);
    found
}

/// The verses that a canonical reference names in `bible`: those whose
/// reference contains the book token, whose chapter equals the chapter
/// segment, and whose number lies in the verse range. A reference without a
/// verse segment names none.
pub fn find_smart_verses(bible: &Bible, chapter_ref: &str) -> (found: Vec<Verse>)
    ensures
        verse_views(found@) == smart_verses(bible@, chapter_ref@),
{
    match parse_verse_query(chapter_ref) {
        Some(query) => filter_verses(bible, &query),
        None => {
            let found: Vec<Verse> = Vec::new();
            assert(verse_views(found@) =~= Seq::<VerseView>::empty());
            found
        },
    }
}

} // verus!
