//! State of the transcript search.
use crate::text::decimal;
use vstd::prelude::*;

verus! {

/// The search query, whether it is being typed, and the items it matches.
pub struct SearchState {
    pub query: String,
    pub is_active: bool,
    pub matches: Vec<usize>,
    pub current_match: usize,
    pub highlights_visible: bool,
}

pub struct SearchModel {
    pub query: Seq<char>,
    pub is_active: bool,
    pub matches: Seq<usize>,
    pub current_match: usize,
    pub highlights_visible: bool,
}

impl SearchState {
    pub open spec fn model(&self) -> SearchModel {
        SearchModel {
            query: self.query@,
            is_active: self.is_active,
            matches: self.matches@,
            current_match: self.current_match,
            highlights_visible: self.highlights_visible,
        }
    }

    /// No query, not typing, no matches.
    pub fn new() -> (r: SearchState)
        ensures
            r.model() == (SearchModel {
                query: Seq::empty(),
                is_active: false,
                matches: Seq::empty(),
                current_match: 0,
                highlights_visible: false,
            }),
    {
        SearchState {
            query: String::new(),
            is_active: false,
            matches: Vec::new(),
            current_match: 0,
            highlights_visible: false,
        }
    }
}

impl Default for SearchState {
    fn default() -> (r: SearchState)
        ensures
            r.model() == (SearchModel {
                query: Seq::empty(),
                is_active: false,
                matches: Seq::empty(),
                current_match: 0,
                highlights_visible: false,
            }),
    {
        SearchState::new()
    }
}

/// The search bar: the query after a slash and, when there are matches, which one
/// is current out of how many.
pub open spec fn search_bar(s: SearchModel) -> Seq<char> {
    seq![' ', '/'] + s.query + if s.matches.len() > 0 {
        seq![' ', ' '] + decimal((s.current_match + 1) as nat) + seq!['/'] + decimal(s.matches.len())
    } else {
        Seq::empty()
    }
}

impl SearchState {
    /// The text of the search bar (see `search_bar`).
    pub fn bar_text(&self) -> (r: String)
        ensures
            r@ == search_bar(self.model()),
    {
        let mut t = String::new();
        crate::text::push_char(&mut t, ' ');
        crate::text::push_char(&mut t, '/');
        crate::json::append_str(&mut t, self.query.as_str());
        let n = self.matches.len();
        if n > 0 {
            crate::text::push_char(&mut t, ' ');
            crate::text::push_char(&mut t, ' ');
            crate::text::push_decimal_wide(&mut t, self.current_match as u128 + 1);
            crate::text::push_char(&mut t, '/');
            crate::text::push_decimal_wide(&mut t, n as u128);
        }
        assert(t@ =~= search_bar(self.model()));
        t
    }
}

} // verus!
