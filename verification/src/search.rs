//! The search state machine: what to do next on each event of one committed search.

use crate::filter::{find_smart_verses, smart_verses};
use crate::model::{verse_views, Bible, BibleView, Verse};
use crate::reference::{chapter_ref_of, parse_chapter_ref, Resolution};
use vstd::prelude::*;

verus! {

/// Where one search stands.
#[derive(Clone, Copy, Debug, PartialEq, Eq, Structural)]
pub enum SearchState {
    /// No search is running.
    Idle,
    /// The resolver has been asked about the search text.
    ParseAttempted,
    /// The resolver found no reference; keyword search has been asked.
    KeywordAttempted,
    /// Ended by moving to the chapter of a resolved reference.
    NavigatedStructured,
    /// Ended by moving to the chapter of the first keyword hit.
    NavigatedKeyword,
    /// Ended without any match; nothing was changed.
    NoMatch,
}

/// What happened outside since the last step.
#[derive(Debug, PartialEq, Eq)]
pub enum SearchEvent {
    /// The user committed the search text.
    Commit,
    /// The resolver answered.
    Resolved(Resolution),
    /// Keyword search answered with its hits, in order.
    KeywordResults(Vec<Verse>),
}

/// What the caller is to do after a step.
#[derive(Debug, PartialEq, Eq)]
pub enum SearchAction {
    /// Ask the resolver about the search text.
    Resolve,
    /// Move to `chapter_ref`, refresh the displayed chapter and close the
    /// prompt. Replace the highlighted verses only when `found` is `Some`.
    NavigateStructured { chapter_ref: String, found: Option<Vec<Verse>> },
    /// Run keyword search over the search text, closing the prompt first when
    /// `close_prompt` is set, as it is after every failure of the resolver.
    SearchKeywords { close_prompt: bool },
    /// Replace the highlighted verses by `hits`, move to the chapter of
    /// `target`, refresh the displayed chapter and close the prompt.
    NavigateKeyword { target: Verse, hits: Vec<Verse> },
    /// Change nothing.
    Nothing,
}

impl SearchAction {
    /// Whether carrying out the action closes the prompt.
    pub open spec fn prompt_closed(self) -> bool {
        match self {
            SearchAction::NavigateStructured { .. } => true,
            SearchAction::NavigateKeyword { .. } => true,
            SearchAction::SearchKeywords { close_prompt } => close_prompt,
            _ => false,
        }
    }

    /// Whether carrying out the action moves the cursor and replaces the text.
    pub open spec fn navigation(self) -> bool {
        self is NavigateStructured || self is NavigateKeyword
    }

    /// Whether carrying out the action closes the prompt.
    pub fn closes_prompt(&self) -> (closes: bool)
        ensures
            closes == self.prompt_closed(),
    {
        match self {
            SearchAction::NavigateStructured { .. } => true,
            SearchAction::NavigateKeyword { .. } => true,
            SearchAction::SearchKeywords { close_prompt } => *close_prompt,
            _ => false,
        }
    }

    /// Whether carrying out the action moves the cursor and replaces the text.
    pub fn navigates(&self) -> (moves: bool)
        ensures
            moves == self.navigation(),
    {
        match self {
            SearchAction::NavigateStructured { .. } => true,
            SearchAction::NavigateKeyword { .. } => true,
            _ => false,
        }
    }
}

impl SearchState {
    /// A state in which no answer is outstanding, so a new search may start.
    pub open spec fn is_resting(self) -> bool {
        !(self is ParseAttempted) && !(self is KeywordAttempted)
    }
}

/// The state that follows `state` on `event`. An event that the state does
/// not wait for leaves it unchanged.
pub open spec fn next_state(state: SearchState, event: SearchEvent) -> SearchState {
    match event {
        SearchEvent::Commit => if state.is_resting() {
            SearchState::ParseAttempted
        } else {
            state
        },
        SearchEvent::Resolved(resolution) => if state is ParseAttempted {
            if resolution is Canonical {
                SearchState::NavigatedStructured
            } else {
                SearchState::KeywordAttempted
            }
        } else {
            state
        },
        SearchEvent::KeywordResults(hits) => if state is KeywordAttempted {
            if hits@.len() > 0 {
                SearchState::NavigatedKeyword
            } else {
                SearchState::NoMatch
            }
        } else {
            state
        },
    }
}

/// Whether `action` is what `state` owes on `event`, given the text `bible`.
pub open spec fn action_fits(
    state: SearchState,
    bible: BibleView,
    event: SearchEvent,
    action: SearchAction,
) -> bool {
    match event {
        SearchEvent::Commit => if state.is_resting() {
            action is Resolve
        } else {
            action is Nothing
        },
        SearchEvent::Resolved(resolution) => if state is ParseAttempted {
            match resolution {
                Resolution::Canonical(r) => {
                    &&& action is NavigateStructured
                    &&& action->chapter_ref@ == chapter_ref_of(r@)
                    &&& match action->found {
                        Some(verses) => verses@.len() > 0 && verse_views(verses@) == smart_verses(
                            bible,
                            r@,
                        ),
                        None => smart_verses(bible, r@).len() == 0,
                    }
                },
                Resolution::ParseMiss => action == (SearchAction::SearchKeywords {
                    close_prompt: true,
                }),
                Resolution::FormatFailure => action == (SearchAction::SearchKeywords {
                    close_prompt: true,
                }),
            }
        } else {
            action is Nothing
        },
        SearchEvent::KeywordResults(hits) => if state is KeywordAttempted && hits@.len() > 0 {
            &&& action is NavigateKeyword
            &&& action->target == hits@[0]
            &&& action->hits@ == hits@
        } else {
            action is Nothing
        },
    }
}

/// One step of a search: the next state and the action owed, from the current
/// state and the event that arrived.
pub fn step(state: SearchState, bible: &Bible, event: SearchEvent) -> (out: (
    SearchState,
    SearchAction,
))
    ensures
        out.0 == next_state(state, event),
        action_fits(state, bible@, event, out.1),
{
    match event {
        SearchEvent::Commit => match state {
            SearchState::ParseAttempted | SearchState::KeywordAttempted => (
                state,
                SearchAction::Nothing,
            ),
            _ => (SearchState::ParseAttempted, SearchAction::Resolve),
        },
        SearchEvent::Resolved(resolution) => match state {
            SearchState::ParseAttempted => match resolution {
                Resolution::Canonical(r) => {
                    let found = find_smart_verses(bible, r.as_str());
                    let chapter_ref = parse_chapter_ref(r.as_str());
                    let found = if found.len() > 0 {
                        Some(found)
                    } else {
                        None
                    };
                    (
                        SearchState::NavigatedStructured,
                        SearchAction::NavigateStructured { chapter_ref, found },
                    )
                },
                Resolution::ParseMiss => (
                    SearchState::KeywordAttempted,
                    SearchAction::SearchKeywords { close_prompt: true },
                ),
                Resolution::FormatFailure => (
                    SearchState::KeywordAttempted,
                    SearchAction::SearchKeywords { close_prompt: true },
                ),
            },
            _ => (state, SearchAction::Nothing),
        },
        SearchEvent::KeywordResults(hits) => match state {
            SearchState::KeywordAttempted => {
                if hits.len() > 0 {
                    let target = hits[0].clone();
                    (
                        SearchState::NavigatedKeyword,
                        SearchAction::NavigateKeyword { target, hits },
                    )
                } else {
                    (SearchState::NoMatch, SearchAction::Nothing)
                }
            },
            _ => (state, SearchAction::Nothing),
        },
    }
}

/// Keyword search is asked for exactly when the resolver gave no canonical
/// reference; a resolved reference always leads to navigation, whether or not
/// it names any verse of the text. Either way the prompt is closed at once:
/// a parse miss and a format failure are handled alike.
pub proof fn lemma_keyword_search_iff_unresolved(
    bible: BibleView,
    resolution: Resolution,
    action: SearchAction,
)
    requires
        action_fits(SearchState::ParseAttempted, bible, SearchEvent::Resolved(resolution), action),
    ensures
        action is SearchKeywords <==> resolution.reference() is None,
        resolution.reference() is Some ==> action is NavigateStructured && next_state(
            SearchState::ParseAttempted,
            SearchEvent::Resolved(resolution),
        ) == SearchState::NavigatedStructured,
        action.prompt_closed(),
        action.navigation() <==> resolution is Canonical,
{
}

/// The two failures of the resolver differ only in name: in every state they
/// lead to the same next state and are owed the same action.
pub proof fn lemma_resolver_failures_alike(state: SearchState, bible: BibleView, action: SearchAction)
    ensures
        next_state(state, SearchEvent::Resolved(Resolution::ParseMiss)) == next_state(
            state,
            SearchEvent::Resolved(Resolution::FormatFailure),
        ),
        action_fits(state, bible, SearchEvent::Resolved(Resolution::ParseMiss), action)
            <==> action_fits(
            state,
            bible,
            SearchEvent::Resolved(Resolution::FormatFailure),
            action,
        ),
{
}

/// Navigation is commanded only by a step that ends in the matching
/// navigated state, and every step that newly reaches such a state commands
/// it; a step that ends without a match changes nothing.
pub proof fn lemma_navigation_only_when_navigated(
    state: SearchState,
    bible: BibleView,
    event: SearchEvent,
    action: SearchAction,
)
    requires
        action_fits(state, bible, event, action),
    ensures
        action is NavigateStructured ==> next_state(state, event) is NavigatedStructured,
        action is NavigateKeyword ==> next_state(state, event) is NavigatedKeyword,
        next_state(state, event) is NavigatedStructured && !(state is NavigatedStructured)
            ==> action is NavigateStructured,
        next_state(state, event) is NavigatedKeyword && !(state is NavigatedKeyword)
            ==> action is NavigateKeyword,
        next_state(state, event) is NoMatch ==> action is Nothing,
        action is Nothing ==> !action.navigation() && !action.prompt_closed(),
{
}

/// A committed search always runs to an end: after the resolver's answer it
/// has either navigated or asked for keywords, and after the keyword hits it
/// rests in one of the three final states.
pub proof fn lemma_search_ends(resolution: Resolution, hits: Vec<Verse>)
    ensures
        ({
            let asked = next_state(SearchState::Idle, SearchEvent::Commit);
            let resolved = next_state(asked, SearchEvent::Resolved(resolution));
            let ended = next_state(resolved, SearchEvent::KeywordResults(hits));
            &&& asked is ParseAttempted
            &&& resolved is NavigatedStructured || resolved is KeywordAttempted
            &&& resolved is NavigatedStructured <==> resolution is Canonical
            &&& ended is NavigatedStructured || ended is NavigatedKeyword || ended is NoMatch
        }),
{
}

} // verus!
