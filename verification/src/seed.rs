//! The seed importers: they fill the relational store from the chapter
//! roster, from bundled chapter texts and translations, and from lines of
//! the interchange format.
//!
//! Every write is an insert-or-update under the verse's row key, so a
//! source imported twice is stored once. Lines that do not parse are
//! skipped. A failure of the store ends an import; what was written before
//! it stays written.

use crate::addressing::{row_key, row_key_of};
use crate::data::TranslationEntry;
use crate::db::{
    upsert_ayah, upsert_surah, upsert_translated_ayah, upsert_translation, StoreError,
};
use crate::interchange::{parse_line, parse_line_spec};
use crate::surah_index::default_surahs;
use rusqlite::Connection;
use vstd::prelude::*;

verus! {

/// Why a seeding was refused or failed.
#[derive(Debug)]
pub enum SeedError {
    /// The store failed.
    Store(StoreError),
    /// The chapter text has more verses than a chapter's block of row keys
    /// can hold.
    TooManyVerses,
}

/// How many of the lines hold a record.
pub open spec fn parsed_count(lines: Seq<String>) -> nat
    decreases lines.len(),
{
    if lines.len() == 0 {
        0
    } else {
        parsed_count(lines.drop_last()) + if parse_line_spec(lines.last()@) is Some {
            1nat
        } else {
            0nat
        }
    }
}

/// Stores the roster of the 114 chapters.
pub fn seed_surahs(conn: &Connection) -> (r: Result<(), StoreError>)
    ensures
        r matches Err(e) ==> e is Engine,
{
    let roster = default_surahs();
    let mut i: usize = 0;
    while i < 114
        invariant
            i <= 114,
            roster.len() == 114,
        decreases 114 - i,
    {
        match upsert_surah(conn, roster[i].0, roster[i].1, roster[i].2) {
            Ok(()) => {},
            Err(e) => {
                return Err(e);
            },
        }
        i += 1;
    }
    Ok(())
}

/// Numbers the verses of a chapter text from one, in the order given. A
/// text of more than 999 verses gets no numbers: a chapter's block of row
/// keys cannot hold it.
pub fn number_verses(ayat: &Vec<String>) -> (r: Option<Vec<(u16, String)>>)
    ensures
        ayat.len() > 999 <==> r is None,
        r matches Some(list) ==> (list.len() == ayat.len() && forall|i: int|
            0 <= i < ayat.len() ==> (#[trigger] list[i]).0 == i + 1 && list[i].1@ == ayat[i]@),
{
    let n = ayat.len();
    if n > 999 {
        return None;
    }
    let mut list: Vec<(u16, String)> = Vec::new();
    let mut i: usize = 0;
    while i < n
        invariant
            i <= n <= 999,
            n == ayat.len(),
            list.len() == i,
            forall|k: int| 0 <= k < i ==> (#[trigger] list[k]).0 == k + 1 && list[k].1@ == ayat[k]@,
        decreases n - i,
    {
        list.push(((i + 1) as u16, ayat[i].clone()));
        i += 1;
    }
    Some(list)
}

/// Stores numbered verses of one chapter, each under the row key of its
/// number, and returns the row keys in the order of the verses. An empty
/// list asks nothing of the store and cannot fail; otherwise only the engine
/// can make a write fail, and the first failure ends the seeding.
pub fn store_verses(conn: &Connection, surah_id: u16, verses: &Vec<(u16, String)>) -> (r: Result<
    Vec<i64>,
    StoreError,
>)
    ensures
        r matches Ok(keys) ==> (keys.len() == verses.len() && forall|i: int|
            0 <= i < verses.len() ==> #[trigger] keys[i] == row_key_of(
                surah_id as int,
                verses[i].0 as int,
            )),
        r matches Err(e) ==> e is Engine && verses.len() > 0,
{
    let n = verses.len();
    let mut keys: Vec<i64> = Vec::new();
    let mut i: usize = 0;
    while i < n
        invariant
            i <= n,
            n == verses.len(),
            keys.len() == i,
            forall|k: int|
                0 <= k < i ==> #[trigger] keys[k] == row_key_of(
                    surah_id as int,
                    verses[k].0 as int,
                ),
        decreases n - i,
    {
        match upsert_ayah(conn, surah_id, verses[i].0, verses[i].1.as_str()) {
            Ok(key) => {
                keys.push(key);
            },
            Err(e) => {
                return Err(e);
            },
        }
        i += 1;
    }
    Ok(keys)
}

/// Stores the verses of one chapter, numbered from one in the order given,
/// and returns how many were stored. A text of more than 999 verses is
/// refused before anything is written; an empty one asks nothing of the
/// store and cannot fail.
pub fn seed_ayat(conn: &Connection, surah_id: u16, ayat: &Vec<String>) -> (r: Result<
    usize,
    SeedError,
>)
    ensures
        ayat.len() > 999 <==> r matches Err(SeedError::TooManyVerses),
        r matches Ok(stored) ==> stored == ayat.len(),
        r matches Err(SeedError::Store(e)) ==> e is Engine && ayat.len() > 0,
{
    match number_verses(ayat) {
        None => Err(SeedError::TooManyVerses),
        Some(verses) => match store_verses(conn, surah_id, &verses) {
            Ok(keys) => Ok(keys.len()),
            Err(e) => Err(SeedError::Store(e)),
        },
    }
}

/// Stores the entries of a translation, each under the row key of its
/// verse, and returns the row keys in the order of the entries. An empty
/// list asks nothing of the store and cannot fail; otherwise only the engine
/// can make a write fail, and the first failure ends the seeding.
pub fn store_entries(conn: &Connection, trans_id: i64, entries: &Vec<TranslationEntry>) -> (r:
    Result<Vec<i64>, StoreError>)
    ensures
        r matches Ok(keys) ==> (keys.len() == entries.len() && forall|i: int|
            0 <= i < entries.len() ==> #[trigger] keys[i] == row_key_of(
                entries[i].surah as int,
                entries[i].ayah as int,
            )),
        r matches Err(e) ==> e is Engine && entries.len() > 0,
{
    let n = entries.len();
    let mut keys: Vec<i64> = Vec::new();
    let mut i: usize = 0;
    while i < n
        invariant
            i <= n,
            n == entries.len(),
            keys.len() == i,
            forall|k: int|
                0 <= k < i ==> #[trigger] keys[k] == row_key_of(
                    entries[k].surah as int,
                    entries[k].ayah as int,
                ),
        decreases n - i,
    {
        let key: i64 = row_key(entries[i].surah, entries[i].ayah);
        match upsert_translated_ayah(conn, key, trans_id, entries[i].text.as_str()) {
            Ok(()) => {
                keys.push(key);
            },
            Err(e) => {
                return Err(e);
            },
        }
        i += 1;
    }
    Ok(keys)
}

/// Registers a translation and stores its entries, each under the row key
/// of its verse. Returns the identifier of the translation.
pub fn seed_translation(
    conn: &Connection,
    name: &str,
    language: &str,
    entries: &Vec<TranslationEntry>,
) -> (r: Result<i64, StoreError>)
    ensures
        r matches Err(e) ==> e is Engine,
{
    let trans_id: i64 = match upsert_translation(conn, name, language) {
        Ok(id) => id,
        Err(e) => {
            return Err(e);
        },
    };
    match store_entries(conn, trans_id, entries) {
        Ok(_) => Ok(trans_id),
        Err(e) => Err(e),
    }
}

/// Imports one line of canonical text: the verse it holds is stored and its
/// row key returned; a line that holds none is skipped.
pub fn import_text_line(conn: &Connection, line: &str) -> (r: Result<Option<i64>, StoreError>)
    ensures
        match r {
            Ok(Some(key)) => parse_line_spec(line@) matches Some(rec) && key == row_key_of(
                rec.0 as int,
                rec.1 as int,
            ),
            Ok(None) => parse_line_spec(line@) is None,
            Err(e) => e is Engine && parse_line_spec(line@) is Some,
        },
{
    match parse_line(line) {
        Some(rec) => match upsert_ayah(conn, rec.0, rec.1, rec.2.as_str()) {
            Ok(key) => Ok(Some(key)),
            Err(e) => Err(e),
        },
        None => Ok(None),
    }
}

/// Imports one line of a translation: the verse it holds is stored under
/// the translation and its row key returned; a line that holds none is
/// skipped.
pub fn import_translation_line(conn: &Connection, trans_id: i64, line: &str) -> (r: Result<
    Option<i64>,
    StoreError,
>)
    ensures
        match r {
            Ok(Some(key)) => parse_line_spec(line@) matches Some(rec) && key == row_key_of(
                rec.0 as int,
                rec.1 as int,
            ),
            Ok(None) => parse_line_spec(line@) is None,
            Err(e) => e is Engine && parse_line_spec(line@) is Some,
        },
{
    match parse_line(line) {
        Some(rec) => {
            let key: i64 = row_key(rec.0, rec.1);
            match upsert_translated_ayah(conn, key, trans_id, rec.2.as_str()) {
                Ok(()) => Ok(Some(key)),
                Err(e) => Err(e),
            }
        },
        None => Ok(None),
    }
}

/// Imports lines of canonical text and returns how many held a verse. Lines
/// that hold none ask nothing of the store, so a list without any verse
/// cannot fail; otherwise only the engine can make a write fail, and the
/// first failure ends the import.
pub fn import_text(conn: &Connection, lines: &Vec<String>) -> (r: Result<usize, StoreError>)
    ensures
        match r {
            Ok(stored) => stored == parsed_count(lines@),
            Err(e) => e is Engine && parsed_count(lines@) > 0,
        },
{
    let n = lines.len();
    let mut stored: usize = 0;
    let mut i: usize = 0;
    while i < n
        invariant
            i <= n,
            n == lines.len(),
            stored <= i,
            stored == parsed_count(lines@.take(i as int)),
        decreases n - i,
    {
        proof {
            let upto = lines@.take(i + 1);
            assert(upto.drop_last() =~= lines@.take(i as int));
            assert(upto.last() == lines[i as int]);
        }
        match import_text_line(conn, lines[i].as_str()) {
            Ok(Some(_)) => {
                stored += 1;
            },
            Ok(None) => {},
            Err(e) => {
                proof {
                    lemma_parsed_count_positive(lines@, i as int);
                }
                return Err(e);
            },
        }
        i += 1;
    }
    assert(lines@.take(n as int) =~= lines@);
    Ok(stored)
}

/// Registers a translation and imports its lines. Returns the identifier
/// of the translation and how many lines held a verse.
pub fn import_translation(conn: &Connection, language: &str, name: &str, lines: &Vec<String>) -> (r:
    Result<(i64, usize), StoreError>)
    ensures
        match r {
            Ok(done) => done.1 == parsed_count(lines@),
            Err(e) => e is Engine,
        },
{
    let trans_id: i64 = match upsert_translation(conn, name, language) {
        Ok(id) => id,
        Err(e) => {
            return Err(e);
        },
    };
    let n = lines.len();
    let mut stored: usize = 0;
    let mut i: usize = 0;
    while i < n
        invariant
            i <= n,
            n == lines.len(),
            stored <= i,
            stored == parsed_count(lines@.take(i as int)),
        decreases n - i,
    {
        proof {
            let upto = lines@.take(i + 1);
            assert(upto.drop_last() =~= lines@.take(i as int));
            assert(upto.last() == lines[i as int]);
        }
        match import_translation_line(conn, trans_id, lines[i].as_str()) {
            Ok(Some(_)) => {
                stored += 1;
            },
            Ok(None) => {},
            Err(e) => {
                return Err(e);
            },
        }
        i += 1;
    }
    assert(lines@.take(n as int) =~= lines@);
    Ok((trans_id, stored))
}

/// A list with a line that holds a record counts at least one.
pub proof fn lemma_parsed_count_positive(lines: Seq<String>, at: int)
    requires
        0 <= at < lines.len(),
        parse_line_spec(lines[at]@) is Some,
    ensures
        parsed_count(lines) > 0,
    decreases lines.len(),
{
    if at < lines.len() - 1 {
        let front = lines.drop_last();
        assert(front[at] == lines[at]);
        lemma_parsed_count_positive(front, at);
    }
}

} // verus!
