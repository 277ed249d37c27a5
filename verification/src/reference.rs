//! Canonical references, `Book.Chapter[.Start[-End]]`, and what is read off them.

use crate::text::{chars_of, find_from, lemma_first_index_bounds, lemma_split_first, split_on};
use vstd::prelude::*;
use vstd::string::*;

verus! {

/// Outcome of resolving search text to a canonical reference.
#[derive(Debug, PartialEq, Eq)]
pub enum Resolution {
    /// The text was read as a reference and rendered in canonical form.
    Canonical(String),
    /// The text is not shaped like a reference.
    ParseMiss,
    /// The text was read as a reference that cannot be rendered.
    FormatFailure,
}

impl Resolution {
    /// The canonical reference, when there is one.
    pub open spec fn reference(self) -> Option<Seq<char>> {
        match self {
            Resolution::Canonical(r) => Some(r@),
            _ => None,
        }
    }

    /// The canonical reference; `None` after either kind of failure.
    pub fn canonical(self) -> (found: Option<String>)
        ensures
            match found {
                Some(r) => self == Resolution::Canonical(r),
                None => !(self is Canonical),
            },
    {
        match self {
            Resolution::Canonical(r) => Some(r),
            _ => None,
        }
    }
}

/// Classifies what the reference parser and the formatter handed back:
/// `None` when the parser recognised nothing, `Some(None)` when it did and the
/// formatter could not render the result, `Some(Some(r))` for the canonical form `r`.
pub fn resolve(formatted: Option<Option<String>>) -> (resolution: Resolution)
    ensures
        match formatted {
            None => resolution is ParseMiss,
            Some(None) => resolution is FormatFailure,
            Some(Some(r)) => resolution == Resolution::Canonical(r),
        },
{
    match formatted {
        None => Resolution::ParseMiss,
        Some(None) => Resolution::FormatFailure,
        Some(Some(r)) => Resolution::Canonical(r),
    }
}

/// The chapter-level part of a canonical reference: its first two
/// dot-separated segments, or the whole reference when it has fewer than two.
pub open spec fn chapter_ref_of(reference: Seq<char>) -> Seq<char> {
    let segments = split_on(reference, '.');
    if segments.len() >= 2 {
        segments[0] + seq!['.'] + segments[1]
    } else {
        reference
    }
}

/// Strips the verse part from a canonical reference, leaving `Book.Chapter`.
pub fn parse_chapter_ref(chapter_ref: &str) -> (chapter: String)
    ensures
        chapter@ == chapter_ref_of(chapter_ref@),
{
    let chars = chars_of(chapter_ref);
    let ghost s = chars@;
    let dot0: usize = find_from(&chars, 0, '.');
    proof {
        assert(s.skip(0) =~= s);
        lemma_split_first(s, '.');
    }
    if dot0 >= chars.len() {
        return String::from_str(chapter_ref);
    }
    let dot1: usize = find_from(&chars, dot0 + 1, '.');
    let ghost rest = s.skip(dot0 + 1);
    proof {
        lemma_first_index_bounds(s, '.');
        lemma_split_first(rest, '.');
        assert(split_on(s, '.')[1] == split_on(rest, '.')[0]);
        assert(s.take(dot1 as int) =~= s.take(dot0 as int) + seq!['.'] + rest.take(
            dot1 - dot0 - 1,
        ));
    }
    let head = chapter_ref.substring_char(0, dot1);
    assert(s.subrange(0, dot1 as int) =~= s.take(dot1 as int));
    String::from_str(head)
}

} // verus!
