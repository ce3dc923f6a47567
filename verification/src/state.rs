//! The reading session held in memory: the chapter roster, the current
//! position, the verses on display, the running search and the bookmarks.

use crate::text::{
    chars_of, contains_chars, contains_text, decimal_string, decimal_text, find_char,
    is_digit, lemma_decimal_text, lemma_parse_decimal_text, parse_u16, parse_u16_spec,
};
use std::collections::HashMap;
use vstd::prelude::*;
use vstd::string::*;

verus! {

/// The address of a verse: its chapter and its number within the chapter,
/// both counted from one.
#[derive(Clone, Copy, Debug, PartialEq, Eq, Hash, Structural)]
pub struct AyahRef {
    pub surah_id: u16,
    pub ayah_index: u16,
}

impl Default for AyahRef {
    /// The first verse of the first chapter.
    fn default() -> (r: Self)
        ensures
            r == (AyahRef { surah_id: 1, ayah_index: 1 }),
    {
        AyahRef { surah_id: 1, ayah_index: 1 }
    }
}

/// A chapter of the roster.
#[derive(Clone, Debug)]
pub struct Surah {
    pub id: u16,
    pub name_ar: String,
    pub name_en: String,
    pub ayah_count: u16,
}

/// The state of a reading session.
#[derive(Clone)]
pub struct AppState {
    pub surahs: Vec<Surah>,
    pub current: AyahRef,
    pub translation_lang: Option<String>,
    pub translations: HashMap<(u16, u16, String), String>,
    pub current_ayat: Vec<String>,
    pub search_query: String,
    pub search_results: Vec<u16>,
    pub bookmarks: Vec<AyahRef>,
    pub prefer_dark: bool,
}

impl Default for AppState {
    /// An empty session: no roster, nothing loaded, the position on the
    /// first verse of the first chapter.
    fn default() -> (st: Self)
        ensures
            st.surahs@ == Seq::<Surah>::empty(),
            st.current == (AyahRef { surah_id: 1, ayah_index: 1 }),
            st.translation_lang is None,
            st.translations@ == Map::<(u16, u16, String), String>::empty(),
            st.current_ayat@ == Seq::<String>::empty(),
            st.search_query@ == Seq::<char>::empty(),
            st.search_results@ == Seq::<u16>::empty(),
            st.bookmarks@ == Seq::<AyahRef>::empty(),
            !st.prefer_dark,
    {
        AppState {
            surahs: Vec::new(),
            current: AyahRef { surah_id: 1, ayah_index: 1 },
            translation_lang: None,
            translations: HashMap::new(),
            current_ayat: Vec::new(),
            search_query: String::new(),
            search_results: Vec::new(),
            bookmarks: Vec::new(),
            prefer_dark: false,
        }
    }
}

/// How many verses a chapter has according to the roster: what the first
/// entry with the chapter's identifier says, or nothing where the roster
/// does not list the chapter.
pub open spec fn verse_count_of(surahs: Seq<Surah>, id: u16) -> Option<u16>
    decreases surahs.len(),
{
    if surahs.len() == 0 {
        None
    } else if surahs[0].id == id {
        Some(surahs[0].ayah_count)
    } else {
        verse_count_of(surahs.drop_first(), id)
    }
}

/// The verse that a step forward from verse `at` reaches in a chapter of
/// `count` verses: the next one, but not beyond the last; a position beyond
/// the last is brought back to it. Where the count is unknown or zero the
/// position stays.
pub open spec fn step_forward(at: u16, count: Option<u16>) -> u16 {
    match count {
        Some(last) => if at < last {
            (at + 1) as u16
        } else if last > 0 {
            last
        } else {
            at
        },
        None => at,
    }
}

/// The first of the numbers that is above `from`, if there is one.
pub open spec fn first_above(hits: Seq<u16>, from: u16) -> Option<u16>
    decreases hits.len(),
{
    if hits.len() == 0 {
        None
    } else if hits[0] > from {
        Some(hits[0])
    } else {
        first_above(hits.drop_first(), from)
    }
}

/// The last of the numbers that is below `from`, if there is one.
pub open spec fn last_below(hits: Seq<u16>, from: u16) -> Option<u16>
    decreases hits.len(),
{
    if hits.len() == 0 {
        None
    } else if hits.last() < from {
        Some(hits.last())
    } else {
        last_below(hits.drop_last(), from)
    }
}

/// The list with `b` added at its end, unless it is in the list already.
pub open spec fn with_bookmark(list: Seq<AyahRef>, b: AyahRef) -> Seq<AyahRef> {
    if list.contains(b) {
        list
    } else {
        list.push(b)
    }
}

/// How many times `b` stands in the list.
pub open spec fn occurrences(list: Seq<AyahRef>, b: AyahRef) -> nat
    decreases list.len(),
{
    if list.len() == 0 {
        0
    } else {
        occurrences(list.drop_last(), b) + if list.last() == b {
            1nat
        } else {
            0nat
        }
    }
}

/// The numbers, counted from one and cut to 16 bits, of the verses that
/// contain the query, in increasing order of position.
pub open spec fn search_hits(verses: Seq<String>, query: Seq<char>) -> Seq<u16>
    decreases verses.len(),
{
    if verses.len() == 0 {
        Seq::empty()
    } else {
        let before = search_hits(verses.drop_last(), query);
        if contains_text(verses.last()@, query) {
            before.push(verses.len() as u16)
        } else {
            before
        }
    }
}

/// The label of an address: chapter and verse in decimal, a colon between
/// them.
pub open spec fn label_of(b: AyahRef) -> Seq<char> {
    decimal_text(b.surah_id as nat) + seq![':'] + decimal_text(b.ayah_index as nat)
}

/// The address that a label names: what stands before the first colon and
/// what stands after it must each read as an unsigned 16-bit number.
pub open spec fn parse_label(label: Seq<char>) -> Option<AyahRef> {
    match label.index_of_first(':') {
        None => None,
        Some(i) => match (parse_u16_spec(label.take(i)), parse_u16_spec(label.skip(i + 1))) {
            (Some(surah_id), Some(ayah_index)) => Some(AyahRef { surah_id, ayah_index }),
            _ => None,
        },
    }
}

/// Writes the label of an address.
pub fn bookmark_label(b: AyahRef) -> (label: String)
    ensures
        label@ == label_of(b),
{
    let mut label = decimal_string(b.surah_id);
    proof {
        reveal_strlit(":");
        assert(":"@ =~= seq![':']);
    }
    label.append(":");
    label.append(decimal_string(b.ayah_index).as_str());
    label
}

/// Reads the address that a label names.
pub fn parse_bookmark_label(label: &str) -> (r: Option<AyahRef>)
    ensures
        r == parse_label(label@),
{
    let v = chars_of(label);
    let n = v.len();
    assert(v@.subrange(0, n as int) =~= label@);
    match find_char(&v, 0, n, ':') {
        None => None,
        Some(p) => {
            assert(v@.subrange(0, p as int) =~= label@.take(p as int));
            assert(v@.subrange(p + 1, n as int) =~= label@.skip(p + 1));
            match (parse_u16(&v, 0, p), parse_u16(&v, p + 1, n)) {
                (Some(surah_id), Some(ayah_index)) => Some(AyahRef { surah_id, ayah_index }),
                _ => None,
            }
        },
    }
}

/// A label names the address it was written for.
pub proof fn lemma_label_round_trip(b: AyahRef)
    ensures
        parse_label(label_of(b)) == Some(b),
{
    let head = decimal_text(b.surah_id as nat);
    let tail = decimal_text(b.ayah_index as nat);
    let label = label_of(b);
    lemma_decimal_text(b.surah_id as nat);
    lemma_parse_decimal_text(b.surah_id);
    lemma_parse_decimal_text(b.ayah_index);
    label.index_of_first_ensures(':');
    assert(label[head.len() as int] == ':');
    assert forall|j: int| 0 <= j < head.len() implies label[j] != ':' by {
        assert(label[j] == head[j]);
        assert(is_digit(head[j]));
    }
    assert(label.index_of_first(':') == Some(head.len() as int));
    assert(label.take(head.len() as int) =~= head);
    assert(label.skip(head.len() as int + 1) =~= tail);
}

/// Adds `b` to the list unless it is there already.
pub fn insert_bookmark(list: &mut Vec<AyahRef>, b: AyahRef)
    ensures
        final(list)@ == with_bookmark(old(list)@, b),
{
    let n = list.len();
    let mut i: usize = 0;
    while i < n
        invariant
            i <= n,
            n == list.len(),
            list@ == old(list)@,
            forall|k: int| 0 <= k < i ==> list[k] != b,
        decreases n - i,
    {
        if list[i] == b {
            return ;
        }
        i += 1;
    }
    list.push(b);
}

impl AppState {
    /// No address is bookmarked twice.
    pub open spec fn bookmarks_distinct(&self) -> bool {
        self.bookmarks@.no_duplicates()
    }

    /// A fresh session: a roster of the opening chapter alone, the position on
    /// its first verse, nothing loaded, searched or bookmarked, no translation
    /// chosen and the light theme.
    pub fn new() -> (st: Self)
        ensures
            st.surahs.len() == 1,
            st.surahs[0].id == 1,
            st.surahs[0].name_ar@ == "الفاتحة"@,
            st.surahs[0].name_en@ == "Al-Fatiha"@,
            st.surahs[0].ayah_count == 7,
            st.current == (AyahRef { surah_id: 1, ayah_index: 1 }),
            st.translation_lang is None,
            st.translations@ == Map::<(u16, u16, String), String>::empty(),
            st.current_ayat@ == Seq::<String>::empty(),
            st.search_query@ == Seq::<char>::empty(),
            st.search_results@ == Seq::<u16>::empty(),
            st.bookmarks@ == Seq::<AyahRef>::empty(),
            !st.prefer_dark,
            st.bookmarks_distinct(),
    {
        let mut surahs: Vec<Surah> = Vec::new();
        surahs.push(
            Surah {
                id: 1,
                name_ar: String::from_str("الفاتحة"),
                name_en: String::from_str("Al-Fatiha"),
                ayah_count: 7,
            },
        );
        AppState {
            surahs,
            current: AyahRef { surah_id: 1, ayah_index: 1 },
            translation_lang: None,
            translations: HashMap::new(),
            current_ayat: Vec::new(),
            search_query: String::new(),
            search_results: Vec::new(),
            bookmarks: Vec::new(),
            prefer_dark: false,
        }
    }

    /// Replaces the verses on display.
    pub fn set_ayat(&mut self, ayat: Vec<String>)
        ensures
            *final(self) == (AppState { current_ayat: ayat, ..*old(self) }),
    {
        self.current_ayat = ayat;
    }

    /// Records the query and searches the verses on display for it. An empty
    /// query clears the results; any other leaves the numbers of the verses
    /// that contain it.
    pub fn run_search(&mut self, query: &str)
        ensures
            final(self).search_query@ == query@,
            final(self).search_results@ == if query@.len() == 0 {
                Seq::<u16>::empty()
            } else {
                search_hits(old(self).current_ayat@, query@)
            },
            final(self).surahs == old(self).surahs,
            final(self).current == old(self).current,
            final(self).translation_lang == old(self).translation_lang,
            final(self).translations == old(self).translations,
            final(self).current_ayat == old(self).current_ayat,
            final(self).bookmarks == old(self).bookmarks,
            final(self).prefer_dark == old(self).prefer_dark,
    {
        self.search_query = String::from_str(query);
        let needle = chars_of(query);
        let mut results: Vec<u16> = Vec::new();
        if needle.len() == 0 {
            self.search_results = results;
            return ;
        }
        let n = self.current_ayat.len();
        let mut i: usize = 0;
        while i < n
            invariant
                i <= n,
                n == self.current_ayat.len(),
                needle@ == query@,
                results@ == search_hits(self.current_ayat@.take(i as int), query@),
            decreases n - i,
        {
            let hay = chars_of(self.current_ayat[i].as_str());
            proof {
                let upto = self.current_ayat@.take(i + 1);
                assert(upto.drop_last() =~= self.current_ayat@.take(i as int));
                assert(upto.last() == self.current_ayat@[i as int]);
            }
            if contains_chars(&hay, &needle) {
                results.push(#[verifier::truncate] ((i + 1) as u16));
            }
            i += 1;
        }
        assert(self.current_ayat@.take(n as int) =~= self.current_ayat@);
        self.search_results = results;
    }

    /// Moves to the first verse of the chapter at `index` of the roster and
    /// returns the number of its verses. An index outside the roster changes
    /// nothing.
    pub fn select_surah(&mut self, index: usize) -> (count: Option<u16>)
        ensures
            index < old(self).surahs.len() ==> (count == Some(
                old(self).surahs[index as int].ayah_count,
            ) && *final(self) == (AppState {
                current: AyahRef { surah_id: old(self).surahs[index as int].id, ayah_index: 1 },
                ..*old(self)
            })),
            index >= old(self).surahs.len() ==> (count is None && *final(self) == *old(self)),
    {
        if index < self.surahs.len() {
            self.current = AyahRef { surah_id: self.surahs[index].id, ayah_index: 1 };
            Some(self.surahs[index].ayah_count)
        } else {
            None
        }
    }

    /// How many verses the current chapter has according to the roster.
    pub fn current_verse_count(&self) -> (count: Option<u16>)
        ensures
            count == verse_count_of(self.surahs@, self.current.surah_id),
    {
        let id: u16 = self.current.surah_id;
        let n = self.surahs.len();
        let mut i: usize = 0;
        assert(self.surahs@.skip(0) =~= self.surahs@);
        while i < n
            invariant
                i <= n,
                n == self.surahs.len(),
                id == self.current.surah_id,
                verse_count_of(self.surahs@, id) == verse_count_of(self.surahs@.skip(i as int), id),
            decreases n - i,
        {
            proof {
                let rest = self.surahs@.skip(i as int);
                assert(rest[0] == self.surahs@[i as int]);
                assert(rest.drop_first() =~= self.surahs@.skip(i + 1));
            }
            if self.surahs[i].id == id {
                return Some(self.surahs[i].ayah_count);
            }
            i += 1;
        }
        None
    }

    /// Steps to the next verse, but not beyond the last verse of the current
    /// chapter, as the roster counts its verses.
    pub fn next_ayah(&mut self)
        ensures
            *final(self) == (AppState {
                current: AyahRef {
                    surah_id: old(self).current.surah_id,
                    ayah_index: step_forward(
                        old(self).current.ayah_index,
                        verse_count_of(old(self).surahs@, old(self).current.surah_id),
                    ),
                },
                ..*old(self)
            }),
    {
        let at: u16 = self.current.ayah_index;
        match self.current_verse_count() {
            Some(last) => {
                if at < last {
                    self.current.ayah_index = at + 1;
                } else if last > 0 {
                    self.current.ayah_index = last;
                }
            },
            None => {},
        }
    }

    /// Steps to the previous verse, but not before the first.
    pub fn prev_ayah(&mut self)
        ensures
            *final(self) == (AppState {
                current: AyahRef {
                    surah_id: old(self).current.surah_id,
                    ayah_index: if old(self).current.ayah_index <= 2 {
                        1u16
                    } else {
                        (old(self).current.ayah_index - 1) as u16
                    },
                },
                ..*old(self)
            }),
    {
        let at: u16 = self.current.ayah_index;
        self.current.ayah_index = if at <= 2 {
            1
        } else {
            at - 1
        };
    }

    /// Switches the translation off where one is chosen, and to English
    /// where none is.
    pub fn toggle_translation(&mut self)
        ensures
            old(self).translation_lang is Some ==> final(self).translation_lang is None,
            old(self).translation_lang is None ==> (final(self).translation_lang matches Some(lang)
                && lang@ == "en"@),
            final(self).surahs == old(self).surahs,
            final(self).current == old(self).current,
            final(self).translations == old(self).translations,
            final(self).current_ayat == old(self).current_ayat,
            final(self).search_query == old(self).search_query,
            final(self).search_results == old(self).search_results,
            final(self).bookmarks == old(self).bookmarks,
            final(self).prefer_dark == old(self).prefer_dark,
    {
        self.translation_lang = if self.translation_lang.is_some() {
            None
        } else {
            Some(String::from_str("en"))
        };
    }

    /// Moves to the first search result after the current verse. Returns
    /// whether there was one; where there was none, nothing changes.
    pub fn next_result(&mut self) -> (moved: bool)
        ensures
            moved == first_above(old(self).search_results@, old(self).current.ayah_index) is Some,
            match first_above(old(self).search_results@, old(self).current.ayah_index) {
                Some(hit) => *final(self) == (AppState {
                    current: AyahRef { surah_id: old(self).current.surah_id, ayah_index: hit },
                    ..*old(self)
                }),
                None => *final(self) == *old(self),
            },
    {
        let from: u16 = self.current.ayah_index;
        let n = self.search_results.len();
        let mut i: usize = 0;
        assert(self.search_results@.skip(0) =~= self.search_results@);
        while i < n
            invariant
                i <= n,
                n == self.search_results.len(),
                *self == *old(self),
                from == self.current.ayah_index,
                first_above(self.search_results@, from) == first_above(
                    self.search_results@.skip(i as int),
                    from,
                ),
            decreases n - i,
        {
            let hit: u16 = self.search_results[i];
            proof {
                let rest = self.search_results@.skip(i as int);
                assert(rest[0] == hit);
                assert(rest.drop_first() =~= self.search_results@.skip(i + 1));
            }
            if hit > from {
                self.current.ayah_index = hit;
                return true;
            }
            i += 1;
        }
        false
    }

    /// Moves to the last search result before the current verse. Returns
    /// whether there was one; where there was none, nothing changes.
    pub fn prev_result(&mut self) -> (moved: bool)
        ensures
            moved == last_below(old(self).search_results@, old(self).current.ayah_index) is Some,
            match last_below(old(self).search_results@, old(self).current.ayah_index) {
                Some(hit) => *final(self) == (AppState {
                    current: AyahRef { surah_id: old(self).current.surah_id, ayah_index: hit },
                    ..*old(self)
                }),
                None => *final(self) == *old(self),
            },
    {
        let from: u16 = self.current.ayah_index;
        let mut i: usize = self.search_results.len();
        assert(self.search_results@.take(i as int) =~= self.search_results@);
        while i > 0
            invariant
                i <= self.search_results.len(),
                *self == *old(self),
                from == self.current.ayah_index,
                last_below(self.search_results@, from) == last_below(
                    self.search_results@.take(i as int),
                    from,
                ),
            decreases i,
        {
            let hit: u16 = self.search_results[i - 1];
            proof {
                let front = self.search_results@.take(i as int);
                assert(front.last() == hit);
                assert(front.drop_last() =~= self.search_results@.take(i - 1));
            }
            if hit < from {
                self.current.ayah_index = hit;
                return true;
            }
            i -= 1;
        }
        false
    }

    /// Position, in the verses on display, of the verse to show: the current
    /// verse number brought into the range of the verses loaded. Nothing
    /// where no verse is loaded.
    pub fn display_index(&self) -> (at: Option<usize>)
        ensures
            self.current_ayat.len() == 0 ==> at is None,
            self.current_ayat.len() > 0 ==> at == Some(
                if self.current.ayah_index == 0 {
                    0usize
                } else if self.current.ayah_index as int > self.current_ayat.len() {
                    (self.current_ayat.len() - 1) as usize
                } else {
                    (self.current.ayah_index - 1) as usize
                },
            ),
    {
        let n = self.current_ayat.len();
        if n == 0 {
            return None;
        }
        let wanted: usize = self.current.ayah_index as usize;
        if wanted == 0 {
            Some(0)
        } else if wanted > n {
            Some(n - 1)
        } else {
            Some(wanted - 1)
        }
    }

    /// Bookmarks an address; one that is bookmarked already is left where it
    /// stands.
    pub fn add_bookmark(&mut self, b: AyahRef)
        ensures
            final(self).bookmarks@ == with_bookmark(old(self).bookmarks@, b),
            old(self).bookmarks_distinct() ==> final(self).bookmarks_distinct(),
            final(self).surahs == old(self).surahs,
            final(self).current == old(self).current,
            final(self).translation_lang == old(self).translation_lang,
            final(self).translations == old(self).translations,
            final(self).current_ayat == old(self).current_ayat,
            final(self).search_query == old(self).search_query,
            final(self).search_results == old(self).search_results,
            final(self).prefer_dark == old(self).prefer_dark,
    {
        insert_bookmark(&mut self.bookmarks, b);
        proof {
            if old(self).bookmarks_distinct() {
                lemma_bookmark_once(old(self).bookmarks@, b);
            }
        }
    }
}

/// A search gives verse numbers in strictly increasing order, each the
/// number of a verse that contains the query, as long as the verses can be
/// numbered in 16 bits.
pub proof fn lemma_search_hits_increasing(verses: Seq<String>, query: Seq<char>)
    requires
        verses.len() <= 65535,
    ensures
        search_hits(verses, query).len() <= verses.len(),
        forall|i: int|
            0 <= i < search_hits(verses, query).len() ==> {
                let hit = #[trigger] search_hits(verses, query)[i];
                1 <= hit <= verses.len() && contains_text(verses[hit - 1]@, query)
            },
        forall|i: int, j: int|
            0 <= i < j < search_hits(verses, query).len() ==> search_hits(verses, query)[i]
                < search_hits(verses, query)[j],
    decreases verses.len(),
{
    if verses.len() > 0 {
        let front = verses.drop_last();
        lemma_search_hits_increasing(front, query);
        let before = search_hits(front, query);
        let all = search_hits(verses, query);
        assert forall|i: int| 0 <= i < all.len() implies {
            let hit = #[trigger] all[i];
            1 <= hit <= verses.len() && contains_text(verses[hit - 1]@, query)
        } by {
            if i < before.len() {
                let hit = before[i];
                assert(all[i] == hit);
                assert(front[hit - 1] == verses[hit - 1]);
            }
        }
        assert forall|i: int, j: int| 0 <= i < j < all.len() implies all[i] < all[j] by {
            assert(all[i] == before[i]);
            if j < before.len() {
                assert(all[j] == before[j]);
            }
        }
    }
}

/// Every verse that contains the query is among the results of a search.
pub proof fn lemma_search_hits_complete(verses: Seq<String>, query: Seq<char>, at: int)
    requires
        verses.len() <= 65535,
        0 <= at < verses.len(),
        contains_text(verses[at]@, query),
    ensures
        search_hits(verses, query).contains((at + 1) as u16),
    decreases verses.len(),
{
    let all = search_hits(verses, query);
    let front = verses.drop_last();
    if at == verses.len() - 1 {
        assert(all.last() == (at + 1) as u16);
    } else {
        lemma_search_hits_complete(front, query, at);
        let before = search_hits(front, query);
        let k = choose|k: int| 0 <= k < before.len() && before[k] == (at + 1) as u16;
        assert(all[k] == before[k]);
    }
}

/// An address that is not in the list does not occur in it, and one that is
/// in a list without repetitions occurs once.
pub proof fn lemma_occurrences(list: Seq<AyahRef>, b: AyahRef)
    ensures
        !list.contains(b) <==> occurrences(list, b) == 0,
        list.no_duplicates() && list.contains(b) ==> occurrences(list, b) == 1,
    decreases list.len(),
{
    if list.len() > 0 {
        let front = list.drop_last();
        lemma_occurrences(front, b);
        if front.contains(b) {
            let k = choose|k: int| 0 <= k < front.len() && front[k] == b;
            assert(list[k] == b);
        }
        if list.contains(b) && list.last() != b {
            let k = choose|k: int| 0 <= k < list.len() && list[k] == b;
            assert(front[k] == b);
        }
        if list.no_duplicates() {
            assert forall|i: int, j: int|
                0 <= i < front.len() && 0 <= j < front.len() && i != j implies front[i]
                != front[j] by {
                assert(front[i] == list[i] && front[j] == list[j]);
            }
            if list.last() == b && front.contains(b) {
                let k = choose|k: int| 0 <= k < front.len() && front[k] == b;
                assert(list[k] == list[list.len() - 1]);
            }
        }
    }
}

/// On any list, bookmarking an address that is missing makes it occur once,
/// and bookmarking one that is there changes nothing: a list that held it
/// several times still does.
pub proof fn lemma_bookmark_counted(list: Seq<AyahRef>, b: AyahRef)
    ensures
        occurrences(with_bookmark(list, b), b) == if occurrences(list, b) == 0 {
            1nat
        } else {
            occurrences(list, b)
        },
        forall|other: AyahRef|
            other != b ==> occurrences(with_bookmark(list, b), other) == occurrences(list, other),
{
    lemma_occurrences(list, b);
    if !list.contains(b) {
        let added = list.push(b);
        assert(added.drop_last() =~= list);
        assert(added.last() == b);
    }
}

/// Bookmarking is idempotent and keeps the list free of repetitions: an
/// address bookmarked once or many times stands in the list exactly once.
pub proof fn lemma_bookmark_once(list: Seq<AyahRef>, b: AyahRef)
    requires
        list.no_duplicates(),
    ensures
        with_bookmark(with_bookmark(list, b), b) == with_bookmark(list, b),
        with_bookmark(list, b).no_duplicates(),
        with_bookmark(list, b).contains(b),
        occurrences(with_bookmark(list, b), b) == 1,
        occurrences(with_bookmark(with_bookmark(list, b), b), b) == 1,
{
    let once = with_bookmark(list, b);
    if !list.contains(b) {
        assert(once.last() == b);
        assert forall|i: int, j: int|
            0 <= i < once.len() && 0 <= j < once.len() && i != j implies once[i] != once[j] by {
            if i < list.len() {
                assert(once[i] == list[i]);
            }
            if j < list.len() {
                assert(once[j] == list[j]);
            }
            if i == list.len() {
                assert(list.contains(list[j]));
            }
            if j == list.len() {
                assert(list.contains(list[i]));
            }
        }
    }
    assert(once.contains(b)) by {
        if !list.contains(b) {
            assert(once[once.len() - 1] == b);
        }
    }
    lemma_occurrences(once, b);
}

} // verus!
