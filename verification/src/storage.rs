//! The user state that outlives a session: the last position, the
//! bookmarks, the translation language and the theme.
//!
//! The record is kept in one file and always written whole. Whoever changes
//! it reads the stored record, or starts from the default where there is
//! none, applies the change with the functions below and writes the result
//! back.

use crate::state::{insert_bookmark, lemma_bookmark_once, with_bookmark, AppState, AyahRef};
use vstd::prelude::*;

verus! {

/// Name of the file that holds the record, inside the application's data
/// directory.
pub const STATE_FILE: &'static str = "state.json";

/// The persisted user state.
#[derive(Debug, Clone)]
pub struct Persisted {
    pub last: AyahRef,
    pub bookmarks: Vec<AyahRef>,
    pub translation_lang: Option<String>,
    pub prefer_dark: bool,
}

impl Default for Persisted {
    /// The state of a first run: the first verse of the first chapter, no
    /// bookmark, no translation, the light theme.
    fn default() -> (p: Self)
        ensures
            p.last == (AyahRef { surah_id: 1, ayah_index: 1 }),
            p.bookmarks@ == Seq::<AyahRef>::empty(),
            p.translation_lang is None,
            !p.prefer_dark,
            p.bookmarks_distinct(),
    {
        Persisted {
            last: AyahRef { surah_id: 1, ayah_index: 1 },
            bookmarks: Vec::new(),
            translation_lang: None,
            prefer_dark: false,
        }
    }
}

/// A copy of an optional language code.
pub fn copy_lang(lang: &Option<String>) -> (out: Option<String>)
    ensures
        out == *lang,
{
    match lang {
        Some(code) => Some(code.clone()),
        None => None,
    }
}

impl Persisted {
    /// No address is bookmarked twice.
    pub open spec fn bookmarks_distinct(&self) -> bool {
        self.bookmarks@.no_duplicates()
    }

    /// Takes over what a session has to remember: its position, its
    /// translation language and its theme. The bookmarks are kept.
    pub fn record(&mut self, st: &AppState)
        ensures
            final(self).last == st.current,
            final(self).translation_lang == st.translation_lang,
            final(self).prefer_dark == st.prefer_dark,
            final(self).bookmarks == old(self).bookmarks,
    {
        self.last = st.current;
        self.translation_lang = copy_lang(&st.translation_lang);
        self.prefer_dark = st.prefer_dark;
    }

    /// Brings a session back to where the record left off: its position,
    /// its translation language and its theme. The rest of the session is
    /// kept.
    pub fn restore(&self, st: &mut AppState)
        ensures
            final(st).current == self.last,
            final(st).translation_lang == self.translation_lang,
            final(st).prefer_dark == self.prefer_dark,
            final(st).surahs == old(st).surahs,
            final(st).translations == old(st).translations,
            final(st).current_ayat == old(st).current_ayat,
            final(st).search_query == old(st).search_query,
            final(st).search_results == old(st).search_results,
            final(st).bookmarks == old(st).bookmarks,
    {
        st.current = self.last;
        st.translation_lang = copy_lang(&self.translation_lang);
        st.prefer_dark = self.prefer_dark;
    }
}

/// Bookmarks an address in the record; one that is bookmarked already is
/// left where it stands. Nothing else in the record changes.
pub fn add_bookmark(p: &mut Persisted, b: AyahRef)
    ensures
        final(p).bookmarks@ == with_bookmark(old(p).bookmarks@, b),
        old(p).bookmarks_distinct() ==> final(p).bookmarks_distinct(),
        final(p).last == old(p).last,
        final(p).translation_lang == old(p).translation_lang,
        final(p).prefer_dark == old(p).prefer_dark,
{
    insert_bookmark(&mut p.bookmarks, b);
    proof {
        if old(p).bookmarks_distinct() {
            lemma_bookmark_once(old(p).bookmarks@, b);
        }
    }
}

} // verus!
