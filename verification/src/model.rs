//! The scripture text as plain data: a text of chapters, each a run of verses.

use crate::text::{chars_of, contains_chars, contains_seq};
use vstd::prelude::*;

verus! {

/// One verse of the text.
#[derive(Debug, PartialEq, Eq)]
pub struct Verse {
    /// Where the verse comes from; may embed the book's name in a longer string.
    pub reference: String,
    /// Chapter number within the book; not necessarily numeric.
    pub chapter: String,
    /// Verse number; numeric in the common case, not always.
    pub verse_num: String,
    /// The verse's words.
    pub text: String,
}

/// Mathematical content of a [`Verse`].
pub ghost struct VerseView {
    pub reference: Seq<char>,
    pub chapter: Seq<char>,
    pub verse_num: Seq<char>,
    pub text: Seq<char>,
}

impl View for Verse {
    type V = VerseView;

    open spec fn view(&self) -> VerseView {
        VerseView {
            reference: self.reference@,
            chapter: self.chapter@,
            verse_num: self.verse_num@,
            text: self.text@,
        }
    }
}

/// The views of a run of verses, in the same order.
pub open spec fn verse_views(verses: Seq<Verse>) -> Seq<VerseView> {
    verses.map_values(|v: Verse| v@)
}

impl VerseView {
    /// Whether the verse belongs to the chapter `chapter` of `book`: its
    /// chapter number is the same and its reference holds the book's name.
    pub open spec fn belongs_to(self, book: Seq<char>, chapter: Seq<char>) -> bool {
        self.chapter == chapter && contains_seq(self.reference, book)
    }
}

impl Clone for Verse {
    fn clone(&self) -> (copy: Self)
        ensures
            copy == *self,
    {
        Verse {
            reference: self.reference.clone(),
            chapter: self.chapter.clone(),
            verse_num: self.verse_num.clone(),
            text: self.text.clone(),
        }
    }
}

/// One chapter of one book.
#[derive(Debug, PartialEq, Eq)]
pub struct Chapter {
    pub book: String,
    pub chapter: String,
    pub verses: Vec<Verse>,
    /// The chapter's full text in one piece.
    pub text: String,
    /// Human-readable heading.
    pub label: String,
}

/// Mathematical content of a [`Chapter`].
pub ghost struct ChapterView {
    pub book: Seq<char>,
    pub chapter: Seq<char>,
    pub verses: Seq<VerseView>,
    pub text: Seq<char>,
    pub label: Seq<char>,
}

impl View for Chapter {
    type V = ChapterView;

    open spec fn view(&self) -> ChapterView {
        ChapterView {
            book: self.book@,
            chapter: self.chapter@,
            verses: verse_views(self.verses@),
            text: self.text@,
            label: self.label@,
        }
    }
}

impl Clone for Chapter {
    fn clone(&self) -> (copy: Self)
        ensures
            copy@ == self@,
            copy.verses@ == self.verses@,
    {
        let mut verses: Vec<Verse> = Vec::new();
        let mut i: usize = 0;
        while i < self.verses.len()
            invariant
                i <= self.verses@.len(),
                verses@ == self.verses@.take(i as int),
            decreases self.verses@.len() - i,
        {
            verses.push(self.verses[i].clone());
            assert(self.verses@.take(i + 1) =~= self.verses@.take(i as int).push(
                self.verses@[i as int],
            ));
            i += 1;
        }
        assert(self.verses@.take(i as int) =~= self.verses@);
        Chapter {
            book: self.book.clone(),
            chapter: self.chapter.clone(),
            verses,
            text: self.text.clone(),
            label: self.label.clone(),
        }
    }
}

impl ChapterView {
    /// All verses of the chapter share its book and chapter number.
    pub open spec fn well_formed(self) -> bool {
        forall|i: int|
            0 <= i < self.verses.len() ==> (#[trigger] self.verses[i]).belongs_to(
                self.book,
                self.chapter,
            )
    }
}

/// A complete text: its chapters in reading order.
#[derive(Debug, PartialEq, Eq)]
pub struct Bible {
    pub chapters: Vec<Chapter>,
}

/// Mathematical content of a [`Bible`].
pub ghost struct BibleView {
    pub chapters: Seq<ChapterView>,
}

impl View for Bible {
    type V = BibleView;

    open spec fn view(&self) -> BibleView {
        BibleView { chapters: self.chapters@.map_values(|c: Chapter| c@) }
    }
}

impl Clone for Bible {
    fn clone(&self) -> (copy: Self)
        ensures
            copy@ == self@,
    {
        let mut chapters: Vec<Chapter> = Vec::new();
        let mut i: usize = 0;
        while i < self.chapters.len()
            invariant
                i <= self.chapters@.len(),
                chapters@.map_values(|c: Chapter| c@) == self@.chapters.take(i as int),
            decreases self.chapters@.len() - i,
        {
            let ghost earlier = chapters@;
            let copy = self.chapters[i].clone();
            chapters.push(copy);
            assert(chapters@.map_values(|c: Chapter| c@) =~= earlier.map_values(|c: Chapter| c@).push(
                copy@,
            ));
            assert(self@.chapters.take(i + 1) =~= self@.chapters.take(i as int).push(
                self.chapters@[i as int]@,
            ));
            i += 1;
        }
        assert(self@.chapters.take(i as int) =~= self@.chapters);
        Bible { chapters }
    }
}

impl BibleView {
    /// Every chapter of the text is well formed.
    pub open spec fn well_formed(self) -> bool {
        forall|i: int| 0 <= i < self.chapters.len() ==> (#[trigger] self.chapters[i]).well_formed()
    }

    /// Every verse of the text, chapter by chapter, in order.
    pub open spec fn verses(self) -> Seq<VerseView> {
        all_verses(self.chapters)
    }
}

impl Verse {
    pub fn new(reference: String, chapter: String, verse_num: String, text: String) -> (verse:
        Verse)
        ensures
            verse == (Verse { reference, chapter, verse_num, text }),
    {
        Verse { reference, chapter, verse_num, text }
    }
}

impl Chapter {
    /// All verses of the chapter share its book and chapter number.
    pub open spec fn well_formed(self) -> bool {
        self@.well_formed()
    }

    /// A chapter without verses yet.
    pub fn new(book: String, chapter: String, text: String, label: String) -> (made: Chapter)
        ensures
            made.book == book,
            made.chapter == chapter,
            made.text == text,
            made.label == label,
            made.verses@.len() == 0,
            made.well_formed(),
    {
        Chapter { book, chapter, verses: Vec::new(), text, label }
    }

    /// Appends `verse` when it belongs to this chapter and says whether it did;
    /// a verse of another book or chapter is left out.
    pub fn add_verse(&mut self, verse: Verse) -> (added: bool)
        requires
            old(self).well_formed(),
        ensures
            final(self).well_formed(),
            final(self).book == old(self).book,
            final(self).chapter == old(self).chapter,
            final(self).text == old(self).text,
            final(self).label == old(self).label,
            added == verse@.belongs_to(old(self).book@, old(self).chapter@),
            final(self).verses@ == if added {
                old(self).verses@.push(verse)
            } else {
                old(self).verses@
            },
            final(self)@.verses == if added {
                old(self)@.verses.push(verse@)
            } else {
                old(self)@.verses
            },
    {
        if verse.chapter != self.chapter {
            return false;
        }
        let reference = chars_of(verse.reference.as_str());
        let book = chars_of(self.book.as_str());
        if !contains_chars(&reference, &book) {
            return false;
        }
        self.verses.push(verse);
        proof {
            let earlier = old(self)@.verses;
            assert(self@.verses =~= earlier.push(verse@));
            assert forall|i: int| 0 <= i < self@.verses.len() implies (#[trigger] self@.verses[i]).belongs_to(
                self@.book,
                self@.chapter,
            ) by {
                if i < earlier.len() {
                    assert(earlier[i].belongs_to(old(self)@.book, old(self)@.chapter));
                }
            }
        }
        true
    }
}

impl Bible {
    /// Every chapter of the text is well formed.
    pub open spec fn well_formed(self) -> bool {
        self@.well_formed()
    }

    /// A text without chapters yet.
    pub fn new() -> (made: Bible)
        ensures
            made.chapters@.len() == 0,
            made.well_formed(),
    {
        Bible { chapters: Vec::new() }
    }

    /// Appends a chapter at the end of the text.
    pub fn add_chapter(&mut self, chapter: Chapter)
        requires
            old(self).well_formed(),
            chapter.well_formed(),
        ensures
            final(self).well_formed(),
            final(self).chapters@ == old(self).chapters@.push(chapter),
            final(self)@.chapters == old(self)@.chapters.push(chapter@),
            final(self)@.verses() == old(self)@.verses() + chapter@.verses,
    {
        self.chapters.push(chapter);
        assert(self@.chapters =~= old(self)@.chapters.push(chapter@));
        assert(self@.chapters.drop_last() =~= old(self)@.chapters);
    }
}

/// Every verse of `chapters`, chapter by chapter, in order.
pub open spec fn all_verses(chapters: Seq<ChapterView>) -> Seq<VerseView>
    decreases chapters.len(),
{
    if chapters.len() == 0 {
        Seq::empty()
    } else {
        all_verses(chapters.drop_last()) + chapters.last().verses
    }
}

} // verus!
