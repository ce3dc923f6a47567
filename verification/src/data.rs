//! The corpus loader: chapters and translations, from the relational store
//! where it holds them and from the bundled asset files where it does not.
//!
//! A chapter is served by exactly one of the two sources, never by a mix.
//! Reading an asset file is left to the caller: the loader names the file.
//! A caller without a store passes no connection and is sent to the assets
//! for everything.

use crate::db::{
    get_ayat, get_surah, get_translation_for_ayah, init_schema, StoreError,
};
use crate::text::{decimal_string, decimal_text, same_text};
use rusqlite::Connection;
use vstd::prelude::*;
use vstd::string::*;

verus! {

/// A translation of some verses into one language.
#[derive(Debug, Clone)]
pub struct TranslationFile {
    pub lang: String,
    pub entries: Vec<TranslationEntry>,
}

/// One translated verse.
#[derive(Debug, Clone)]
pub struct TranslationEntry {
    pub surah: u16,
    pub ayah: u16,
    pub text: String,
}

/// A chapter with its names and the text of its verses, the first verse
/// first.
#[derive(Debug, Clone)]
pub struct SurahTextFile {
    pub surah: u16,
    pub name_ar: String,
    pub name_en: String,
    pub ayat: Vec<String>,
}

/// Where a chapter comes from.
#[derive(Debug)]
pub enum ChapterSource {
    /// The store holds the chapter: here it is.
    Store(SurahTextFile),
    /// The store does not hold it: it is in the asset file of this name,
    /// in the directory of chapter texts.
    Asset(String),
}

/// Where a translation comes from.
#[derive(Debug)]
pub enum TranslationSource {
    /// What the store holds of it.
    Store(TranslationFile),
    /// There is no store: it is in the asset file of this name, in the
    /// directory of translations.
    Asset(String),
}

/// Why the loader could not answer.
#[derive(Debug)]
pub enum LoadError {
    /// The store failed.
    Store(StoreError),
    /// There is no store, and no sample translation for this language and
    /// chapter is bundled.
    MissingSample,
}

/// Directory of the chapter texts, inside the assets directory.
pub const QURAN_DIR: &'static str = "quran";

/// Directory of the sample translations, inside the assets directory.
pub const TRANSLATIONS_DIR: &'static str = "translations";

/// Name of the asset file of a chapter: the opening chapter has a file of
/// its own name, every other is named by its number.
pub open spec fn asset_name_of(id: u16) -> Seq<char> {
    if id == 1 {
        "fatiha.json"@
    } else {
        decimal_text(id as nat) + ".json"@
    }
}

/// Name of the bundled sample translation for a language and a chapter, if
/// there is one: English and Indonesian, for the opening chapter only.
pub open spec fn sample_asset_of(lang: Seq<char>, surah: u16) -> Option<Seq<char>> {
    if surah == 1 && lang == "en"@ {
        Some("en_fatiha.json"@)
    } else if surah == 1 && lang == "id"@ {
        Some("id_fatiha.json"@)
    } else {
        None
    }
}

/// The entries that a round of lookups gives: one for each verse that had a
/// text, in the order of the lookups. Verses without one leave no trace.
pub open spec fn present_entries(surah: u16, probes: Seq<(u16, Option<String>)>) -> Seq<
    (u16, u16, Seq<char>),
>
    decreases probes.len(),
{
    if probes.len() == 0 {
        Seq::empty()
    } else {
        let before = present_entries(surah, probes.drop_last());
        match probes.last().1 {
            Some(text) => before.push((surah, probes.last().0, text@)),
            None => before,
        }
    }
}

impl TranslationEntry {
    /// The entry as plain values: chapter, verse, text.
    pub open spec fn view(&self) -> (u16, u16, Seq<char>) {
        (self.surah, self.ayah, self.text@)
    }
}

impl TranslationFile {
    /// The entries as plain values, in order.
    pub open spec fn entries_view(&self) -> Seq<(u16, u16, Seq<char>)> {
        Seq::new(self.entries.len() as nat, |i: int| self.entries[i].view())
    }
}

/// The directory that holds the bundled assets.
pub fn assets_dir() -> (dir: String)
    ensures
        dir@ == "assets"@,
{
    String::from_str("assets")
}

/// Name of the asset file of a chapter.
pub fn surah_asset_name(id: u16) -> (name: String)
    ensures
        name@ == asset_name_of(id),
{
    if id == 1 {
        String::from_str("fatiha.json")
    } else {
        let mut name = decimal_string(id);
        name.append(".json");
        name
    }
}

/// Name of the bundled sample translation for a language and a chapter.
pub fn sample_translation_asset(lang: &str, surah: u16) -> (name: Option<&'static str>)
    ensures
        match name {
            Some(n) => sample_asset_of(lang@, surah) == Some(n@),
            None => sample_asset_of(lang@, surah) is None,
        },
{
    if surah == 1 && same_text(lang, "en") {
        Some("en_fatiha.json")
    } else if surah == 1 && same_text(lang, "id") {
        Some("id_fatiha.json")
    } else {
        None
    }
}

/// Puts a chapter together from what the store returned: the verses keep
/// their order, and their numbers are dropped.
pub fn surah_file(id: u16, name_ar: String, name_en: String, ayat: &Vec<(u16, String)>) -> (file:
    SurahTextFile)
    ensures
        file.surah == id,
        file.name_ar == name_ar,
        file.name_en == name_en,
        file.ayat.len() == ayat.len(),
        forall|i: int| 0 <= i < ayat.len() ==> (#[trigger] file.ayat[i])@ == ayat[i].1@,
{
    let mut texts: Vec<String> = Vec::new();
    let n = ayat.len();
    let mut i: usize = 0;
    while i < n
        invariant
            i <= n,
            n == ayat.len(),
            texts.len() == i,
            forall|k: int| 0 <= k < i ==> (#[trigger] texts[k])@ == ayat[k].1@,
        decreases n - i,
    {
        texts.push(ayat[i].1.clone());
        i += 1;
    }
    SurahTextFile { surah: id, name_ar, name_en, ayat: texts }
}

/// Puts a translation together from a round of lookups, one for each verse
/// of the chapter: verses for which nothing was found are left out.
pub fn translation_file(lang: &str, surah: u16, probes: &Vec<(u16, Option<String>)>) -> (file:
    TranslationFile)
    ensures
        file.lang@ == lang@,
        file.entries_view() == present_entries(surah, probes@),
{
    let mut entries: Vec<TranslationEntry> = Vec::new();
    let ghost mut shown: Seq<(u16, u16, Seq<char>)> = Seq::empty();
    let n = probes.len();
    let mut i: usize = 0;
    while i < n
        invariant
            i <= n,
            n == probes.len(),
            shown == present_entries(surah, probes@.take(i as int)),
            shown.len() == entries.len(),
            forall|k: int| 0 <= k < entries.len() ==> (#[trigger] entries[k]).view() == shown[k],
        decreases n - i,
    {
        proof {
            let upto = probes@.take(i + 1);
            assert(upto.drop_last() =~= probes@.take(i as int));
            assert(upto.last() == probes[i as int]);
        }
        match &probes[i].1 {
            Some(text) => {
                entries.push(TranslationEntry { surah, ayah: probes[i].0, text: text.clone() });
                proof {
                    shown = shown.push((surah, probes[i as int].0, text@));
                }
            },
            None => {},
        }
        i += 1;
    }
    assert(probes@.take(n as int) =~= probes@);
    let file = TranslationFile { lang: String::from_str(lang), entries };
    assert(file.entries_view() =~= shown);
    file
}

/// Decides where a chapter comes from, given what the store answered. A
/// chapter that the store holds is served wholly from the store: its names
/// and its verses in the order they came, also where there are none. One
/// that the store does not hold is in its asset file.
pub fn chapter_source(id: u16, found: Option<(String, String, Vec<(u16, String)>)>) -> (src:
    ChapterSource)
    ensures
        match found {
            Some(hit) => (src matches ChapterSource::Store(file) && file.surah == id
                && file.name_ar == hit.0 && file.name_en == hit.1 && file.ayat.len()
                == hit.2.len() && forall|i: int|
                0 <= i < hit.2.len() ==> (#[trigger] file.ayat[i])@ == hit.2[i].1@),
            None => (src matches ChapterSource::Asset(name) && name@ == asset_name_of(id)),
        },
{
    match found {
        Some((name_ar, name_en, ayat)) => ChapterSource::Store(
            surah_file(id, name_ar, name_en, &ayat),
        ),
        None => ChapterSource::Asset(surah_asset_name(id)),
    }
}

/// Asks the store for a chapter: its names and, where it has them, its
/// verses. Nothing where the store has no row for the chapter. Only the
/// engine can make it fail.
pub fn find_chapter(conn: &Connection, id: u16) -> (r: Result<
    Option<(String, String, Vec<(u16, String)>)>,
    StoreError,
>)
    ensures
        r matches Err(e) ==> e is Engine,
{
    match get_surah(conn, id) {
        Err(e) => Err(e),
        Ok(None) => Ok(None),
        Ok(Some(names)) => match get_ayat(conn, id) {
            Err(e) => Err(e),
            Ok(ayat) => Ok(Some((names.0, names.1, ayat))),
        },
    }
}

/// Looks a chapter up: from the store where the store holds it, else the
/// name of its asset file. Without a connection the answer is always the
/// asset file. A failure to prepare the schema is passed over; a failed
/// lookup is the engine's error. What is returned for each answer of the
/// store is what `chapter_source` gives.
pub fn load_surah_text(conn: Option<&Connection>, id: u16) -> (r: Result<ChapterSource, StoreError>)
    ensures
        conn is None ==> r is Ok,
        match r {
            Ok(ChapterSource::Store(file)) => conn is Some && file.surah == id,
            Ok(ChapterSource::Asset(name)) => name@ == asset_name_of(id),
            Err(e) => conn is Some && e is Engine,
        },
{
    match conn {
        Some(c) => {
            let _ = init_schema(c);
            match find_chapter(c, id) {
                Ok(found) => Ok(chapter_source(id, found)),
                Err(e) => Err(e),
            }
        },
        None => Ok(chapter_source(id, None)),
    }
}

/// Looks up each verse of a list in one language, in the order of the list:
/// one lookup for each verse, under the verse's number. An empty list asks
/// nothing of the store and cannot fail; otherwise only the engine can make
/// a lookup fail, and the first failure ends the round.
pub fn probe_translations(conn: &Connection, lang: &str, surah: u16, ayat: &Vec<(u16, String)>) -> (r:
    Result<Vec<(u16, Option<String>)>, StoreError>)
    ensures
        r matches Ok(probes) ==> (probes.len() == ayat.len() && forall|i: int|
            0 <= i < ayat.len() ==> (#[trigger] probes[i]).0 == ayat[i].0),
        r matches Err(e) ==> e is Engine && ayat.len() > 0,
{
    let mut probes: Vec<(u16, Option<String>)> = Vec::new();
    let n = ayat.len();
    let mut i: usize = 0;
    while i < n
        invariant
            i <= n,
            n == ayat.len(),
            probes.len() == i,
            forall|k: int| 0 <= k < i ==> (#[trigger] probes[k]).0 == ayat[k].0,
        decreases n - i,
    {
        let number: u16 = ayat[i].0;
        match get_translation_for_ayah(conn, surah, number, lang) {
            Ok(found) => {
                probes.push((number, found));
            },
            Err(e) => {
                return Err(e);
            },
        }
        i += 1;
    }
    Ok(probes)
}

/// Loads the translation of a chapter into a language. With a store: every
/// verse that the store holds of the chapter is looked up, and those with a
/// text in that language make the entries. Without one: the name of the
/// bundled sample file, where there is one for this language and chapter.
pub fn load_translation(conn: Option<&Connection>, lang: &str, surah: u16) -> (r: Result<
    TranslationSource,
    LoadError,
>)
    ensures
        conn is None ==> match sample_asset_of(lang@, surah) {
            Some(n) => (r matches Ok(TranslationSource::Asset(name)) && name@ == n),
            None => (r matches Err(LoadError::MissingSample)),
        },
        conn is Some ==> match r {
            Ok(TranslationSource::Store(file)) => file.lang@ == lang@ && forall|i: int|
                0 <= i < file.entries.len() ==> (#[trigger] file.entries[i]).surah == surah,
            Ok(TranslationSource::Asset(_)) => false,
            Err(e) => (e matches LoadError::Store(cause) && cause is Engine),
        },
{
    match conn {
        Some(c) => {
            let _ = init_schema(c);
            let ayat = match get_ayat(c, surah) {
                Ok(list) => list,
                Err(e) => {
                    return Err(LoadError::Store(e));
                },
            };
            let probes = match probe_translations(c, lang, surah, &ayat) {
                Ok(list) => list,
                Err(e) => {
                    return Err(LoadError::Store(e));
                },
            };
            let file = translation_file(lang, surah, &probes);
            proof {
                lemma_entries_of_chapter(surah, probes@);
                assert forall|i: int| 0 <= i < file.entries.len() implies (
                #[trigger] file.entries[i]).surah == surah by {
                    assert(file.entries_view()[i] == file.entries[i].view());
                }
            }
            Ok(TranslationSource::Store(file))
        },
        None => match sample_translation_asset(lang, surah) {
            Some(name) => Ok(TranslationSource::Asset(String::from_str(name))),
            None => Err(LoadError::MissingSample),
        },
    }
}

/// The translations on offer, as language code and display name. With a
/// store: those registered in it, and only the engine can make the listing
/// fail. Without one: the two bundled samples.
pub fn get_available_translations(conn: Option<&Connection>) -> (r: Result<
    Vec<(String, String)>,
    StoreError,
>)
    ensures
        conn is None ==> (r matches Ok(list) && list.len() == 2 && list[0].0@ == "en"@
            && list[0].1@ == "Sample EN"@ && list[1].0@ == "id"@ && list[1].1@ == "Sample ID"@),
        r matches Err(e) ==> conn is Some && e is Engine,
{
    match conn {
        Some(c) => {
            let _ = init_schema(c);
            crate::db::get_available_translations(c)
        },
        None => {
            let mut list: Vec<(String, String)> = Vec::new();
            list.push((String::from_str("en"), String::from_str("Sample EN")));
            list.push((String::from_str("id"), String::from_str("Sample ID")));
            Ok(list)
        },
    }
}

/// A round of lookups gives no more entries than verses were looked up, all
/// of them in the chapter asked for.
pub proof fn lemma_entries_of_chapter(surah: u16, probes: Seq<(u16, Option<String>)>)
    ensures
        present_entries(surah, probes).len() <= probes.len(),
        forall|i: int|
            0 <= i < present_entries(surah, probes).len() ==> (#[trigger] present_entries(
                surah,
                probes,
            )[i]).0 == surah,
    decreases probes.len(),
{
    if probes.len() > 0 {
        lemma_entries_of_chapter(surah, probes.drop_last());
    }
}

/// Where the first `found` lookups of a round gave a text and the others
/// gave none, the entries are those first `found` verses, in order, with the
/// numbers and texts of the lookups: nothing stands in for a missing verse.
pub proof fn lemma_missing_verses_omitted(
    surah: u16,
    probes: Seq<(u16, Option<String>)>,
    found: int,
)
    requires
        0 <= found <= probes.len(),
        forall|i: int| 0 <= i < found ==> (#[trigger] probes[i]).1 is Some,
        forall|i: int| found <= i < probes.len() ==> (#[trigger] probes[i]).1 is None,
    ensures
        present_entries(surah, probes).len() == found,
        forall|i: int|
            0 <= i < found ==> #[trigger] present_entries(surah, probes)[i] == (
                surah,
                probes[i].0,
                probes[i].1->0@,
            ),
    decreases probes.len(),
{
    if probes.len() > 0 {
        let front = probes.drop_last();
        if found == probes.len() {
            lemma_missing_verses_omitted(surah, front, found - 1);
        } else {
            lemma_missing_verses_omitted(surah, front, found);
        }
        assert forall|i: int| 0 <= i < found implies #[trigger] present_entries(surah, probes)[i]
            == (surah, probes[i].0, probes[i].1->0@) by {
            if i < front.len() {
                assert(front[i] == probes[i]);
            }
        }
    }
}

} // verus!
