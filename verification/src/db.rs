//! The relational store: its schema, its idempotent writes and its reads.
//!
//! The store is an SQLite database reached through `rusqlite`. What the
//! database holds lives outside this program, so no contract here speaks of
//! it: every call into the engine may fail, and a read may return any rows.
//! What the contracts do fix is everything on this side of the engine: the
//! statement that is handed to it, with the row key a verse is stored
//! under, and how the rows that a query returned are turned into values.

use crate::addressing::{
    chapter_first_key, chapter_key_range, chapter_last_key, row_key, row_key_of, verse_from_key,
    verse_of_key,
};
use crate::text::{chars_of, contains_chars, contains_text};
use rusqlite::{params_from_iter, Connection, ToSql};
use vstd::prelude::*;
use vstd::string::*;

verus! {

/// `rusqlite::Connection`, a connection to a database. It is carried
/// through and handed to the engine; nothing is known of what is inside.
#[verifier::external_type_specification]
#[verifier::external_body]
pub struct ExConnection(rusqlite::Connection);

/// `rusqlite::Error`, what the engine reports when a call fails. It is
/// carried through to the caller; nothing is known of what is inside.
#[verifier::external_type_specification]
#[verifier::external_body]
pub struct ExEngineError(rusqlite::Error);

/// Name of the database file, inside the application's data directory.
pub const DB_FILE: &'static str = "quran.db";

pub const SCHEMA_SQL: &'static str =
    "PRAGMA foreign_keys=ON;
CREATE TABLE IF NOT EXISTS surah (
    surah_id INTEGER PRIMARY KEY,
    name_arabic TEXT NOT NULL,
    name_english TEXT NOT NULL
);
CREATE TABLE IF NOT EXISTS ayah (
    ayah_id INTEGER PRIMARY KEY,
    surah_id INTEGER NOT NULL REFERENCES surah(surah_id) ON DELETE CASCADE,
    ayah_number INTEGER NOT NULL,
    text_uthmani TEXT NOT NULL,
    UNIQUE(surah_id, ayah_number)
);
CREATE TABLE IF NOT EXISTS translation (
    trans_id INTEGER PRIMARY KEY,
    name TEXT NOT NULL,
    language TEXT NOT NULL
);
CREATE TABLE IF NOT EXISTS translated_ayah (
    ayah_id INTEGER NOT NULL REFERENCES ayah(ayah_id) ON DELETE CASCADE,
    trans_id INTEGER NOT NULL REFERENCES translation(trans_id) ON DELETE CASCADE,
    text TEXT NOT NULL,
    PRIMARY KEY(ayah_id, trans_id)
);
";

pub const UPSERT_SURAH_SQL: &'static str =
    "INSERT INTO surah(surah_id,name_arabic,name_english) VALUES(?1,?2,?3) \
     ON CONFLICT(surah_id) DO UPDATE SET name_arabic=excluded.name_arabic, \
     name_english=excluded.name_english";

pub const UPSERT_AYAH_SQL: &'static str =
    "INSERT INTO ayah(ayah_id,surah_id,ayah_number,text_uthmani) VALUES(?1,?2,?3,?4) \
     ON CONFLICT(ayah_id) DO UPDATE SET text_uthmani=excluded.text_uthmani";

pub const INSERT_TRANSLATION_SQL: &'static str =
    "INSERT INTO translation(name,language) VALUES(?1,?2)";

pub const UPSERT_TRANSLATED_AYAH_SQL: &'static str =
    "INSERT INTO translated_ayah(ayah_id,trans_id,text) VALUES(?1,?2,?3) \
     ON CONFLICT(ayah_id,trans_id) DO UPDATE SET text=excluded.text";

pub const GET_SURAH_SQL: &'static str =
    "SELECT name_arabic,name_english FROM surah WHERE surah_id=?1";

pub const LIST_SURAHS_SQL: &'static str =
    "SELECT surah_id,name_arabic,name_english FROM surah ORDER BY surah_id";

pub const LIST_AYAT_SQL: &'static str =
    "SELECT ayah_number,text_uthmani FROM ayah WHERE surah_id=?1 ORDER BY ayah_number";

/// Where several translations of one language hold the verse, the one
/// with the lowest identifier is read.
pub const GET_TRANSLATED_SQL: &'static str =
    "SELECT ta.text FROM translated_ayah ta JOIN translation t ON ta.trans_id=t.trans_id \
     WHERE ta.ayah_id=?1 AND t.language=?2 ORDER BY ta.trans_id LIMIT 1";

pub const CHAPTER_TRANSLATED_SQL: &'static str =
    "SELECT ta.ayah_id,ta.text FROM translated_ayah ta JOIN translation t \
     ON ta.trans_id=t.trans_id WHERE ta.ayah_id BETWEEN ?1 AND ?2 AND t.language=?3 \
     ORDER BY ta.ayah_id, ta.trans_id";

pub const LIST_TRANSLATIONS_SQL: &'static str =
    "SELECT language, name FROM translation ORDER BY language";

/// Why an operation on the store failed.
#[derive(Debug)]
pub enum StoreError {
    /// The database engine reported an error.
    Engine(rusqlite::Error),
    /// The engine returned a row without a column that the query selects, or
    /// with a row key below zero.
    Malformed,
}

/// One row of a query's result: its integer columns, then its text columns.
#[derive(Debug, Clone)]
pub struct Record {
    pub ints: Vec<i64>,
    pub texts: Vec<String>,
}

/// What is handed to the engine: the SQL text, the integers bound to its
/// first parameters, the texts bound to those that follow and, for a query,
/// how many integer columns and then text columns each row of the answer has.
#[derive(Debug, Clone)]
pub struct Statement {
    pub sql: &'static str,
    pub ints: Vec<i64>,
    pub texts: Vec<String>,
    pub int_cols: usize,
    pub text_cols: usize,
}

/// Opens the database at `path` with `rusqlite::Connection::open`, which
/// creates the file where there is none. Nothing is claimed of the outcome.
#[verifier::external_body]
fn connect(path: &str) -> (r: Result<Connection, rusqlite::Error>) {
    Connection::open(path)
}

/// Runs statements that take no parameters with
/// `rusqlite::Connection::execute_batch`. Nothing is claimed of the outcome.
#[verifier::external_body]
fn run_batch(conn: &Connection, sql: &str) -> (r: Result<(), rusqlite::Error>) {
    conn.execute_batch(sql)
}

/// Runs one statement with `rusqlite::Connection::execute`, binding the
/// integers to its first parameters and the texts to those that follow.
/// Nothing is claimed of the outcome, which is the number of rows changed.
#[verifier::external_body]
fn run_statement(conn: &Connection, st: &Statement) -> (r: Result<usize, rusqlite::Error>) {
    let args = st.ints.iter().map(|i| i as &dyn ToSql).chain(
        st.texts.iter().map(|t| t as &dyn ToSql),
    );
    conn.execute(st.sql, params_from_iter(args))
}

/// The row identifier of the latest successful insert on this connection,
/// by `rusqlite::Connection::last_insert_rowid`. Nothing is claimed of it.
#[verifier::external_body]
fn last_rowid(conn: &Connection) -> (id: i64) {
    conn.last_insert_rowid()
}

/// Runs one query with `rusqlite::Connection::prepare` and
/// `rusqlite::Statement::query_map`, binding parameters as `run_statement`
/// does, and hands out every row: its first `int_cols` columns read as
/// integers, its next `text_cols` columns read as text, each with
/// `rusqlite::Row::get`. A column of another type makes the whole call fail,
/// so every record that comes back has as many integers and as many texts as
/// the statement asks for. Nothing is claimed of which rows come back, nor
/// of what they hold.
#[verifier::external_body]
fn fetch_rows(conn: &Connection, st: &Statement) -> (r: Result<Vec<Record>, rusqlite::Error>)
    requires
        st.int_cols + st.text_cols <= usize::MAX,
    ensures
        r matches Ok(rows) ==> forall|i: int|
            0 <= i < rows.len() ==> (#[trigger] rows[i]).has_shape(st.int_cols, st.text_cols),
{
    let args = st.ints.iter().map(|i| i as &dyn ToSql).chain(
        st.texts.iter().map(|t| t as &dyn ToSql),
    );
    let last = st.int_cols + st.text_cols;
    let mut stmt = conn.prepare(st.sql)?;
    let rows = stmt.query_map(params_from_iter(args), |row| {
        let ints = (0..st.int_cols).map(|c| row.get(c)).collect::<Result<_, _>>()?;
        let texts = (st.int_cols..last).map(|c| row.get(c)).collect::<Result<_, _>>()?;
        Ok(Record { ints, texts })
    })?;
    rows.collect()
}

impl Statement {
    /// The texts as plain values, in order.
    pub open spec fn texts_view(&self) -> Seq<Seq<char>> {
        Seq::new(self.texts.len() as nat, |i: int| self.texts[i]@)
    }

    /// The statement has this SQL text, binds these integers and then these
    /// texts, and asks for rows of this many integer and text columns.
    pub open spec fn holds(
        &self,
        sql: Seq<char>,
        ints: Seq<i64>,
        texts: Seq<Seq<char>>,
        int_cols: int,
        text_cols: int,
    ) -> bool {
        &&& self.sql@ == sql
        &&& self.ints@ == ints
        &&& self.texts_view() == texts
        &&& self.int_cols == int_cols
        &&& self.text_cols == text_cols
    }
}

/// The statement that stores a chapter's names under its identifier.
pub fn surah_upsert(surah_id: u16, name_ar: &str, name_en: &str) -> (st: Statement)
    ensures
        st.holds(UPSERT_SURAH_SQL@, seq![surah_id as i64], seq![name_ar@, name_en@], 0, 0),
{
    let mut ints: Vec<i64> = Vec::new();
    ints.push(surah_id as i64);
    let mut texts: Vec<String> = Vec::new();
    texts.push(String::from_str(name_ar));
    texts.push(String::from_str(name_en));
    let st = Statement { sql: UPSERT_SURAH_SQL, ints, texts, int_cols: 0, text_cols: 0 };
    assert(st.ints@ =~= seq![surah_id as i64]);
    assert(st.texts_view() =~= seq![name_ar@, name_en@]);
    st
}

/// The statement that stores a verse's text: under the verse's row key,
/// with its chapter and its number beside it.
pub fn ayah_upsert(surah_id: u16, ayah_number: u16, text: &str) -> (st: Statement)
    ensures
        st.holds(
            UPSERT_AYAH_SQL@,
            seq![
                row_key_of(surah_id as int, ayah_number as int) as i64,
                surah_id as i64,
                ayah_number as i64,
            ],
            seq![text@],
            0,
            0,
        ),
{
    let mut ints: Vec<i64> = Vec::new();
    ints.push(row_key(surah_id, ayah_number));
    ints.push(surah_id as i64);
    ints.push(ayah_number as i64);
    let mut texts: Vec<String> = Vec::new();
    texts.push(String::from_str(text));
    let st = Statement { sql: UPSERT_AYAH_SQL, ints, texts, int_cols: 0, text_cols: 0 };
    assert(st.ints@ =~= seq![
        row_key_of(surah_id as int, ayah_number as int) as i64,
        surah_id as i64,
        ayah_number as i64,
    ]);
    assert(st.texts_view() =~= seq![text@]);
    st
}

/// The statement that registers a translation: display name, then language.
pub fn translation_insert(name: &str, language: &str) -> (st: Statement)
    ensures
        st.holds(INSERT_TRANSLATION_SQL@, Seq::empty(), seq![name@, language@], 0, 0),
{
    let ints: Vec<i64> = Vec::new();
    let mut texts: Vec<String> = Vec::new();
    texts.push(String::from_str(name));
    texts.push(String::from_str(language));
    let st = Statement { sql: INSERT_TRANSLATION_SQL, ints, texts, int_cols: 0, text_cols: 0 };
    assert(st.ints@ =~= Seq::<i64>::empty());
    assert(st.texts_view() =~= seq![name@, language@]);
    st
}

/// The statement that stores a verse's text in one translation.
pub fn translated_ayah_upsert(ayah_id: i64, trans_id: i64, text: &str) -> (st: Statement)
    ensures
        st.holds(UPSERT_TRANSLATED_AYAH_SQL@, seq![ayah_id, trans_id], seq![text@], 0, 0),
{
    let mut ints: Vec<i64> = Vec::new();
    ints.push(ayah_id);
    ints.push(trans_id);
    let mut texts: Vec<String> = Vec::new();
    texts.push(String::from_str(text));
    let st = Statement { sql: UPSERT_TRANSLATED_AYAH_SQL, ints, texts, int_cols: 0, text_cols: 0 };
    assert(st.ints@ =~= seq![ayah_id, trans_id]);
    assert(st.texts_view() =~= seq![text@]);
    st
}

/// The query for a chapter's two names.
pub fn surah_query(surah_id: u16) -> (st: Statement)
    ensures
        st.holds(GET_SURAH_SQL@, seq![surah_id as i64], Seq::empty(), 0, 2),
{
    let mut ints: Vec<i64> = Vec::new();
    ints.push(surah_id as i64);
    let st = Statement { sql: GET_SURAH_SQL, ints, texts: Vec::new(), int_cols: 0, text_cols: 2 };
    assert(st.ints@ =~= seq![surah_id as i64]);
    assert(st.texts_view() =~= Seq::<Seq<char>>::empty());
    st
}

/// The query for the roster: identifier and two names for each chapter.
pub fn surah_list_query() -> (st: Statement)
    ensures
        st.holds(LIST_SURAHS_SQL@, Seq::empty(), Seq::empty(), 1, 2),
{
    let st = Statement { sql: LIST_SURAHS_SQL, ints: Vec::new(), texts: Vec::new(), int_cols: 1, text_cols: 2 };
    assert(st.ints@ =~= Seq::<i64>::empty());
    assert(st.texts_view() =~= Seq::<Seq<char>>::empty());
    st
}

/// The query for a chapter's verses: number and text for each.
pub fn ayat_query(surah_id: u16) -> (st: Statement)
    ensures
        st.holds(LIST_AYAT_SQL@, seq![surah_id as i64], Seq::empty(), 1, 1),
{
    let mut ints: Vec<i64> = Vec::new();
    ints.push(surah_id as i64);
    let st = Statement { sql: LIST_AYAT_SQL, ints, texts: Vec::new(), int_cols: 1, text_cols: 1 };
    assert(st.ints@ =~= seq![surah_id as i64]);
    assert(st.texts_view() =~= Seq::<Seq<char>>::empty());
    st
}

/// The query for a verse's text in a language: it asks by the verse's row
/// key.
pub fn translated_text_query(surah_id: u16, ayah_number: u16, language: &str) -> (st: Statement)
    ensures
        st.holds(
            GET_TRANSLATED_SQL@,
            seq![row_key_of(surah_id as int, ayah_number as int) as i64],
            seq![language@],
            0,
            1,
        ),
{
    let mut ints: Vec<i64> = Vec::new();
    ints.push(row_key(surah_id, ayah_number));
    let mut texts: Vec<String> = Vec::new();
    texts.push(String::from_str(language));
    let st = Statement { sql: GET_TRANSLATED_SQL, ints, texts, int_cols: 0, text_cols: 1 };
    assert(st.ints@ =~= seq![row_key_of(surah_id as int, ayah_number as int) as i64]);
    assert(st.texts_view() =~= seq![language@]);
    st
}

/// The query for a chapter's translated verses in a language, row key and
/// text for each: it asks for the chapter's whole block of row keys.
pub fn chapter_translated_query(surah_id: u16, language: &str) -> (st: Statement)
    ensures
        st.holds(
            CHAPTER_TRANSLATED_SQL@,
            seq![
                chapter_first_key(surah_id as int) as i64,
                chapter_last_key(surah_id as int) as i64,
            ],
            seq![language@],
            1,
            1,
        ),
{
    let range = chapter_key_range(surah_id);
    let mut ints: Vec<i64> = Vec::new();
    ints.push(range.0);
    ints.push(range.1);
    let mut texts: Vec<String> = Vec::new();
    texts.push(String::from_str(language));
    let st = Statement { sql: CHAPTER_TRANSLATED_SQL, ints, texts, int_cols: 1, text_cols: 1 };
    assert(st.ints@ =~= seq![
        chapter_first_key(surah_id as int) as i64,
        chapter_last_key(surah_id as int) as i64,
    ]);
    assert(st.texts_view() =~= seq![language@]);
    st
}

/// The query for the translations on offer: language and display name.
pub fn translations_query() -> (st: Statement)
    ensures
        st.holds(LIST_TRANSLATIONS_SQL@, Seq::empty(), Seq::empty(), 0, 2),
{
    let st = Statement { sql: LIST_TRANSLATIONS_SQL, ints: Vec::new(), texts: Vec::new(), int_cols: 0, text_cols: 2 };
    assert(st.ints@ =~= Seq::<i64>::empty());
    assert(st.texts_view() =~= Seq::<Seq<char>>::empty());
    st
}

impl Record {
    /// The record has this many integers and this many texts.
    pub open spec fn has_shape(&self, int_cols: usize, text_cols: usize) -> bool {
        self.ints.len() == int_cols && self.texts.len() == text_cols
    }

    /// The integer in column `c`, if the record has that column.
    pub open spec fn int_col(&self, c: int) -> Option<i64> {
        if 0 <= c < self.ints.len() {
            Some(self.ints[c])
        } else {
            None
        }
    }

    /// The text in column `c` of the text columns, if the record has it.
    pub open spec fn text_col(&self, c: int) -> Option<Seq<char>> {
        if 0 <= c < self.texts.len() {
            Some(self.texts[c]@)
        } else {
            None
        }
    }

    /// The integer in column `c`.
    pub fn int_at(&self, c: usize) -> (r: Option<i64>)
        ensures
            r == self.int_col(c as int),
    {
        if c < self.ints.len() {
            Some(self.ints[c])
        } else {
            None
        }
    }

    /// A copy of the text in column `c` of the text columns.
    pub fn text_at(&self, c: usize) -> (r: Option<String>)
        ensures
            match r {
                Some(t) => self.text_col(c as int) == Some(t@),
                None => self.text_col(c as int) is None,
            },
    {
        if c < self.texts.len() {
            Some(self.texts[c].clone())
        } else {
            None
        }
    }
}

/// The two names that a chapter row holds.
pub open spec fn names_of(rec: Record) -> Option<(Seq<char>, Seq<char>)> {
    match (rec.text_col(0), rec.text_col(1)) {
        (Some(primary), Some(latin)) => Some((primary, latin)),
        _ => None,
    }
}

/// The identifier, cut to 16 bits, and the two names that a roster row holds.
pub open spec fn surah_of(rec: Record) -> Option<(u16, Seq<char>, Seq<char>)> {
    match (rec.int_col(0), rec.text_col(0), rec.text_col(1)) {
        (Some(id), Some(primary), Some(latin)) => Some((id as u16, primary, latin)),
        _ => None,
    }
}

/// The verse number, cut to 16 bits, and the text that a verse row holds.
pub open spec fn ayah_of(rec: Record) -> Option<(u16, Seq<char>)> {
    match (rec.int_col(0), rec.text_col(0)) {
        (Some(number), Some(text)) => Some((number as u16, text)),
        _ => None,
    }
}

/// The verse number and the text that a row of translated text holds under
/// its row key.
pub open spec fn translated_of(rec: Record) -> Option<(u16, Seq<char>)> {
    match (rec.int_col(0), rec.text_col(0)) {
        (Some(key), Some(text)) => if key >= 0 {
            Some((verse_of_key(key as int) as u16, text))
        } else {
            None
        },
        _ => None,
    }
}

/// The verse numbers of the rows whose text contains the query, in the
/// order of the rows. Rows that hold no verse count as not matching.
pub open spec fn matching_verses(rows: Seq<Record>, query: Seq<char>) -> Seq<u16>
    decreases rows.len(),
{
    if rows.len() == 0 {
        Seq::empty()
    } else {
        let before = matching_verses(rows.drop_last(), query);
        match translated_of(rows.last()) {
            Some(verse) => if contains_text(verse.1, query) {
                before.push(verse.0)
            } else {
                before
            },
            None => before,
        }
    }
}

/// Reads the answer to a lookup of one chapter: the names in the first row,
/// or nothing where no row came back.
pub fn surah_names_from(rows: &Vec<Record>) -> (r: Result<Option<(String, String)>, StoreError>)
    ensures
        match r {
            Ok(None) => rows.len() == 0,
            Ok(Some(names)) => rows.len() > 0 && names_of(rows[0]) == Some((names.0@, names.1@)),
            Err(e) => e is Malformed && rows.len() > 0 && names_of(rows[0]) is None,
        },
{
    if rows.len() == 0 {
        return Ok(None);
    }
    match (rows[0].text_at(0), rows[0].text_at(1)) {
        (Some(primary), Some(latin)) => Ok(Some((primary, latin))),
        _ => Err(StoreError::Malformed),
    }
}

/// Reads the answer to a lookup of one translated verse: the text in the
/// first row, or nothing where no row came back.
pub fn translated_text_from(rows: &Vec<Record>) -> (r: Result<Option<String>, StoreError>)
    ensures
        match r {
            Ok(None) => rows.len() == 0,
            Ok(Some(text)) => rows.len() > 0 && rows[0].text_col(0) == Some(text@),
            Err(e) => e is Malformed && rows.len() > 0 && rows[0].text_col(0) is None,
        },
{
    if rows.len() == 0 {
        return Ok(None);
    }
    match rows[0].text_at(0) {
        Some(text) => Ok(Some(text)),
        None => Err(StoreError::Malformed),
    }
}

/// Reads the roster: one chapter for each row, in the order of the rows.
pub fn surah_list_from(rows: &Vec<Record>) -> (r: Result<Vec<(u16, String, String)>, StoreError>)
    ensures
        match r {
            Ok(list) => list.len() == rows.len() && forall|i: int|
                0 <= i < rows.len() ==> surah_of(#[trigger] rows[i]) == Some(
                    (list[i].0, list[i].1@, list[i].2@),
                ),
            Err(e) => e is Malformed && exists|i: int|
                0 <= i < rows.len() && surah_of(#[trigger] rows[i]) is None,
        },
{
    let mut list: Vec<(u16, String, String)> = Vec::new();
    let n = rows.len();
    let mut i: usize = 0;
    while i < n
        invariant
            i <= n,
            n == rows.len(),
            list.len() == i,
            forall|k: int|
                0 <= k < i ==> surah_of(#[trigger] rows[k]) == Some(
                    (list[k].0, list[k].1@, list[k].2@),
                ),
        decreases n - i,
    {
        match (rows[i].int_at(0), rows[i].text_at(0), rows[i].text_at(1)) {
            (Some(id), Some(primary), Some(latin)) => {
                list.push((#[verifier::truncate] (id as u16), primary, latin));
            },
            _ => {
                assert(surah_of(rows[i as int]) is None);
                return Err(StoreError::Malformed);
            },
        }
        i += 1;
    }
    Ok(list)
}

/// Reads the verses of a chapter: one for each row, in the order of the rows.
pub fn ayat_from(rows: &Vec<Record>) -> (r: Result<Vec<(u16, String)>, StoreError>)
    ensures
        match r {
            Ok(list) => list.len() == rows.len() && forall|i: int|
                0 <= i < rows.len() ==> ayah_of(#[trigger] rows[i]) == Some(
                    (list[i].0, list[i].1@),
                ),
            Err(e) => e is Malformed && exists|i: int|
                0 <= i < rows.len() && ayah_of(#[trigger] rows[i]) is None,
        },
{
    let mut list: Vec<(u16, String)> = Vec::new();
    let n = rows.len();
    let mut i: usize = 0;
    while i < n
        invariant
            i <= n,
            n == rows.len(),
            list.len() == i,
            forall|k: int|
                0 <= k < i ==> ayah_of(#[trigger] rows[k]) == Some((list[k].0, list[k].1@)),
        decreases n - i,
    {
        match (rows[i].int_at(0), rows[i].text_at(0)) {
            (Some(number), Some(text)) => {
                list.push((#[verifier::truncate] (number as u16), text));
            },
            _ => {
                assert(ayah_of(rows[i as int]) is None);
                return Err(StoreError::Malformed);
            },
        }
        i += 1;
    }
    Ok(list)
}

/// Reads the translations on offer: language code and display name for each
/// row, in the order of the rows.
pub fn translations_from(rows: &Vec<Record>) -> (r: Result<Vec<(String, String)>, StoreError>)
    ensures
        match r {
            Ok(list) => list.len() == rows.len() && forall|i: int|
                0 <= i < rows.len() ==> names_of(#[trigger] rows[i]) == Some(
                    (list[i].0@, list[i].1@),
                ),
            Err(e) => e is Malformed && exists|i: int|
                0 <= i < rows.len() && names_of(#[trigger] rows[i]) is None,
        },
{
    let mut list: Vec<(String, String)> = Vec::new();
    let n = rows.len();
    let mut i: usize = 0;
    while i < n
        invariant
            i <= n,
            n == rows.len(),
            list.len() == i,
            forall|k: int|
                0 <= k < i ==> names_of(#[trigger] rows[k]) == Some((list[k].0@, list[k].1@)),
        decreases n - i,
    {
        match (rows[i].text_at(0), rows[i].text_at(1)) {
            (Some(language), Some(name)) => {
                list.push((language, name));
            },
            _ => {
                assert(names_of(rows[i as int]) is None);
                return Err(StoreError::Malformed);
            },
        }
        i += 1;
    }
    Ok(list)
}

/// Searches rows of translated text for a query: the verse numbers of the
/// rows whose text contains it, in the order of the rows. The match is exact,
/// character by character.
pub fn search_rows(rows: &Vec<Record>, query: &str) -> (r: Result<Vec<u16>, StoreError>)
    ensures
        match r {
            Ok(hits) => hits@ == matching_verses(rows@, query@) && forall|i: int|
                0 <= i < rows.len() ==> translated_of(#[trigger] rows[i]) is Some,
            Err(e) => e is Malformed && exists|i: int|
                0 <= i < rows.len() && translated_of(#[trigger] rows[i]) is None,
        },
{
    let needle = chars_of(query);
    let mut hits: Vec<u16> = Vec::new();
    let n = rows.len();
    let mut i: usize = 0;
    while i < n
        invariant
            i <= n,
            n == rows.len(),
            needle@ == query@,
            hits@ == matching_verses(rows@.take(i as int), query@),
            forall|k: int| 0 <= k < i ==> translated_of(#[trigger] rows[k]) is Some,
        decreases n - i,
    {
        proof {
            let upto = rows@.take(i + 1);
            assert(upto.drop_last() =~= rows@.take(i as int));
            assert(upto.last() == rows[i as int]);
        }
        match (rows[i].int_at(0), rows[i].texts.get(0)) {
            (Some(key), Some(text)) => {
                if key < 0 {
                    assert(translated_of(rows[i as int]) is None);
                    return Err(StoreError::Malformed);
                }
                let hay = chars_of(text.as_str());
                if contains_chars(&hay, &needle) {
                    hits.push(verse_from_key(key));
                }
            },
            _ => {
                assert(translated_of(rows[i as int]) is None);
                return Err(StoreError::Malformed);
            },
        }
        i += 1;
    }
    assert(rows@.take(n as int) =~= rows@);
    Ok(hits)
}

/// Opens the database file at `path`, creating it where there is none.
pub fn open(path: &str) -> (r: Result<Connection, StoreError>)
    ensures
        r matches Err(e) ==> e is Engine,
{
    match connect(path) {
        Ok(conn) => Ok(conn),
        Err(e) => Err(StoreError::Engine(e)),
    }
}

/// Creates the four tables where they are missing. Safe to repeat.
pub fn init_schema(conn: &Connection) -> (r: Result<(), StoreError>)
    ensures
        r matches Err(e) ==> e is Engine,
{
    match run_batch(conn, SCHEMA_SQL) {
        Ok(()) => Ok(()),
        Err(e) => Err(StoreError::Engine(e)),
    }
}

/// Stores a chapter's names under its identifier, replacing those stored
/// before.
pub fn upsert_surah(conn: &Connection, surah_id: u16, name_ar: &str, name_en: &str) -> (r: Result<
    (),
    StoreError,
>)
    ensures
        r matches Err(e) ==> e is Engine,
{
    match run_statement(conn, &surah_upsert(surah_id, name_ar, name_en)) {
        Ok(_) => Ok(()),
        Err(e) => Err(StoreError::Engine(e)),
    }
}

/// Stores a verse's text under its row key, replacing the text stored
/// before, and returns the row key.
pub fn upsert_ayah(conn: &Connection, surah_id: u16, ayah_number: u16, text: &str) -> (r: Result<
    i64,
    StoreError,
>)
    ensures
        match r {
            Ok(key) => key == row_key_of(surah_id as int, ayah_number as int),
            Err(e) => e is Engine,
        },
{
    let ayah_id: i64 = row_key(surah_id, ayah_number);
    match run_statement(conn, &ayah_upsert(surah_id, ayah_number, text)) {
        Ok(_) => Ok(ayah_id),
        Err(e) => Err(StoreError::Engine(e)),
    }
}

/// Registers a translation and returns the identifier that the store gave
/// it. Every call adds one: editions may share a language.
pub fn upsert_translation(conn: &Connection, name: &str, language: &str) -> (r: Result<
    i64,
    StoreError,
>)
    ensures
        r matches Err(e) ==> e is Engine,
{
    match run_statement(conn, &translation_insert(name, language)) {
        Ok(_) => Ok(last_rowid(conn)),
        Err(e) => Err(StoreError::Engine(e)),
    }
}

/// Stores a verse's text in one translation, replacing the text stored
/// before under the same verse and translation.
pub fn upsert_translated_ayah(conn: &Connection, ayah_id: i64, trans_id: i64, text: &str) -> (r:
    Result<(), StoreError>)
    ensures
        r matches Err(e) ==> e is Engine,
{
    match run_statement(conn, &translated_ayah_upsert(ayah_id, trans_id, text)) {
        Ok(_) => Ok(()),
        Err(e) => Err(StoreError::Engine(e)),
    }
}

/// The names of a chapter, or nothing where the store does not hold it.
/// Only the engine can make the lookup fail.
pub fn get_surah(conn: &Connection, surah_id: u16) -> (r: Result<
    Option<(String, String)>,
    StoreError,
>)
    ensures
        r matches Err(e) ==> e is Engine,
{
    match fetch_rows(conn, &surah_query(surah_id)) {
        Ok(rows) => surah_names_from(&rows),
        Err(e) => Err(StoreError::Engine(e)),
    }
}

/// The roster of chapters, by identifier. Only the engine can make the
/// listing fail.
pub fn get_surah_list(conn: &Connection) -> (r: Result<Vec<(u16, String, String)>, StoreError>)
    ensures
        r matches Err(e) ==> e is Engine,
{
    match fetch_rows(conn, &surah_list_query()) {
        Ok(rows) => surah_list_from(&rows),
        Err(e) => Err(StoreError::Engine(e)),
    }
}

/// The verses of a chapter with their numbers, by number. Only the engine
/// can make the listing fail.
pub fn get_ayat(conn: &Connection, surah_id: u16) -> (r: Result<Vec<(u16, String)>, StoreError>)
    ensures
        r matches Err(e) ==> e is Engine,
{
    match fetch_rows(conn, &ayat_query(surah_id)) {
        Ok(rows) => ayat_from(&rows),
        Err(e) => Err(StoreError::Engine(e)),
    }
}

/// The text of a verse in a language, or nothing where the store holds
/// none. Of several translations in that language the one with the lowest
/// identifier is read. Only the engine can make the lookup fail.
pub fn get_translation_for_ayah(
    conn: &Connection,
    surah_id: u16,
    ayah_number: u16,
    language: &str,
) -> (r: Result<Option<String>, StoreError>)
    ensures
        r matches Err(e) ==> e is Engine,
{
    match fetch_rows(conn, &translated_text_query(surah_id, ayah_number, language)) {
        Ok(rows) => translated_text_from(&rows),
        Err(e) => Err(StoreError::Engine(e)),
    }
}

/// The numbers of the verses of a chapter whose text in a language contains
/// the query, in increasing order of row key. The store hands over the
/// chapter's translated verses; the matching is done here.
pub fn search_surah_translation_ayahs(
    conn: &Connection,
    surah_id: u16,
    language: &str,
    query: &str,
) -> (r: Result<Vec<u16>, StoreError>)
    ensures
        r matches Ok(hits) ==> forall|i: int| 0 <= i < hits.len() ==> hits[i] <= 999,
{
    match fetch_rows(conn, &chapter_translated_query(surah_id, language)) {
        Ok(rows) => {
            let found = search_rows(&rows, query);
            proof {
                lemma_matching_verses_bounded(rows@, query@);
            }
            found
        },
        Err(e) => Err(StoreError::Engine(e)),
    }
}

/// The translations on offer as language code and display name, by
/// language code. Only the engine can make the listing fail.
pub fn get_available_translations(conn: &Connection) -> (r: Result<
    Vec<(String, String)>,
    StoreError,
>)
    ensures
        r matches Err(e) ==> e is Engine,
{
    match fetch_rows(conn, &translations_query()) {
        Ok(rows) => translations_from(&rows),
        Err(e) => Err(StoreError::Engine(e)),
    }
}

/// The integer in the first column of every row is a row key of the
/// chapter, and the keys do not decrease from one row to the next.
pub open spec fn rows_of_chapter(rows: Seq<Record>, chapter: int) -> bool {
    &&& forall|i: int|
        0 <= i < rows.len() ==> (#[trigger] rows[i]).ints.len() > 0 && chapter_first_key(chapter)
            <= rows[i].ints[0] <= chapter_last_key(chapter)
    &&& forall|i: int, j: int|
        0 <= i < j < rows.len() ==> (#[trigger] rows[i]).ints[0] <= (#[trigger] rows[j]).ints[0]
}

/// Searching the rows of one chapter, taken by row key, gives verse numbers
/// that do not decrease.
pub proof fn lemma_matching_verses_ordered(rows: Seq<Record>, query: Seq<char>, chapter: int)
    requires
        0 <= chapter,
        rows_of_chapter(rows, chapter),
    ensures
        forall|i: int, j: int|
            0 <= i < j < matching_verses(rows, query).len() ==> matching_verses(rows, query)[i]
                <= matching_verses(rows, query)[j],
        forall|i: int|
            0 <= i < matching_verses(rows, query).len() && rows.len() > 0 ==> (
            #[trigger] matching_verses(rows, query)[i]) as int <= verse_of_key(
                rows.last().ints[0] as int,
            ),
    decreases rows.len(),
{
    if rows.len() > 0 {
        let front = rows.drop_last();
        assert(rows_of_chapter(front, chapter)) by {
            assert forall|i: int| 0 <= i < front.len() implies (#[trigger] front[i]).ints.len() > 0
                && chapter_first_key(chapter) <= front[i].ints[0] <= chapter_last_key(chapter) by {
                assert(front[i] == rows[i]);
            }
            assert forall|i: int, j: int| 0 <= i < j < front.len() implies (#[trigger] front[i]).ints[0]
                <= (#[trigger] front[j]).ints[0] by {
                assert(front[i] == rows[i] && front[j] == rows[j]);
            }
        }
        lemma_matching_verses_ordered(front, query, chapter);
        let before = matching_verses(front, query);
        let all = matching_verses(rows, query);
        let last_key = rows.last().ints[0] as int;
        assert(rows[rows.len() - 1] == rows.last());
        if front.len() > 0 {
            assert(front.last() == rows[front.len() - 1]);
            let prev_key = front.last().ints[0] as int;
            assert(prev_key <= last_key);
            assert(verse_of_key(prev_key) <= verse_of_key(last_key)) by {
                assert(chapter * 1000 <= prev_key <= last_key <= chapter * 1000 + 999);
            }
        }
        assert forall|i: int| 0 <= i < all.len() implies (#[trigger] all[i]) as int <= verse_of_key(
            last_key,
        ) by {
            if i < before.len() {
                assert(all[i] == before[i]);
            } else {
                assert(0 <= verse_of_key(last_key) <= 999);
            }
        }
        assert forall|i: int, j: int| 0 <= i < j < all.len() implies all[i] <= all[j] by {
            assert(all[i] == before[i]);
            if j < before.len() {
                assert(all[j] == before[j]);
            } else {
                assert(front.len() > 0);
                assert(0 <= verse_of_key(last_key) <= 999);
            }
        }
    }
}

/// Every row holds a verse of the chapter with its text, and the row keys
/// strictly increase from one row to the next: each verse comes once.
pub open spec fn rows_hold_each_verse_once(rows: Seq<Record>, chapter: int) -> bool {
    &&& forall|i: int|
        0 <= i < rows.len() ==> (#[trigger] rows[i]).ints.len() > 0 && rows[i].texts.len() > 0
            && chapter_first_key(chapter) <= rows[i].ints[0] <= chapter_last_key(chapter)
    &&& forall|i: int, j: int|
        0 <= i < j < rows.len() ==> (#[trigger] rows[i]).ints[0] < (#[trigger] rows[j]).ints[0]
}

/// The row holds verse `verse`, and its text contains the query.
pub open spec fn row_matches(rec: Record, verse: u16, query: Seq<char>) -> bool {
    translated_of(rec) matches Some(held) && held.0 == verse && contains_text(held.1, query)
}

/// Searching rows that hold each verse of one chapter once gives verse
/// numbers in strictly increasing order, and exactly the numbers of the
/// verses whose text contains the query.
pub proof fn lemma_matching_verses_exact(rows: Seq<Record>, query: Seq<char>, chapter: int)
    requires
        0 <= chapter,
        rows_hold_each_verse_once(rows, chapter),
    ensures
        forall|i: int, j: int|
            0 <= i < j < matching_verses(rows, query).len() ==> matching_verses(rows, query)[i]
                < matching_verses(rows, query)[j],
        forall|verse: u16|
            matching_verses(rows, query).contains(verse) <==> exists|i: int|
                0 <= i < rows.len() && row_matches(#[trigger] rows[i], verse, query),
        forall|i: int|
            0 <= i < matching_verses(rows, query).len() && rows.len() > 0 ==> (
            #[trigger] matching_verses(rows, query)[i]) as int <= verse_of_key(
                rows.last().ints[0] as int,
            ),
    decreases rows.len(),
{
    let all = matching_verses(rows, query);
    if rows.len() == 0 {
        assert forall|verse: u16| all.contains(verse) <==> exists|i: int|
            0 <= i < rows.len() && row_matches(#[trigger] rows[i], verse, query) by {}
    } else {
        let front = rows.drop_last();
        let last = rows.last();
        let last_key = last.ints[0] as int;
        assert(rows[rows.len() - 1] == last);
        assert(rows_hold_each_verse_once(front, chapter)) by {
            assert forall|i: int| 0 <= i < front.len() implies (#[trigger] front[i]).ints.len() > 0
                && front[i].texts.len() > 0 && chapter_first_key(chapter) <= front[i].ints[0]
                <= chapter_last_key(chapter) by {
                assert(front[i] == rows[i]);
            }
            assert forall|i: int, j: int| 0 <= i < j < front.len() implies (#[trigger] front[i]).ints[0]
                < (#[trigger] front[j]).ints[0] by {
                assert(front[i] == rows[i] && front[j] == rows[j]);
            }
        }
        lemma_matching_verses_exact(front, query, chapter);
        let before = matching_verses(front, query);
        let last_verse = verse_of_key(last_key);
        assert(chapter * 1000 <= last_key <= chapter * 1000 + 999);
        assert(0 <= last_verse <= 999);
        assert(translated_of(last) == Some((last_verse as u16, last.texts[0]@)));
        let hit = contains_text(last.texts[0]@, query);
        assert(all == if hit {
            before.push(last_verse as u16)
        } else {
            before
        });
        assert forall|i: int| 0 <= i < before.len() implies ((#[trigger] before[i]) as int)
            < last_verse by {
            assert(front.len() > 0);
            assert(front.last() == rows[front.len() - 1]);
            let prev_key = front.last().ints[0] as int;
            assert(chapter * 1000 <= prev_key < last_key);
            assert(verse_of_key(prev_key) < last_verse);
        }
        assert forall|i: int| 0 <= i < all.len() implies (#[trigger] all[i]) as int
            <= last_verse by {
            if i < before.len() {
                assert(all[i] == before[i]);
            }
        }
        assert forall|i: int, j: int| 0 <= i < j < all.len() implies all[i] < all[j] by {
            assert(all[i] == before[i]);
            if j < before.len() {
                assert(all[j] == before[j]);
            }
        }
        assert forall|verse: u16| all.contains(verse) <==> exists|i: int|
            0 <= i < rows.len() && row_matches(#[trigger] rows[i], verse, query) by {
            if all.contains(verse) {
                let k = choose|k: int| 0 <= k < all.len() && all[k] == verse;
                if k < before.len() {
                    assert(before[k] == verse);
                    assert(before.contains(verse));
                    let i = choose|i: int|
                        0 <= i < front.len() && row_matches(#[trigger] front[i], verse, query);
                    assert(rows[i] == front[i]);
                    assert(row_matches(rows[i], verse, query));
                } else {
                    assert(row_matches(rows[rows.len() - 1], verse, query));
                }
            }
            if exists|i: int| 0 <= i < rows.len() && row_matches(#[trigger] rows[i], verse, query) {
                let i = choose|i: int|
                    0 <= i < rows.len() && row_matches(#[trigger] rows[i], verse, query);
                if i < front.len() {
                    assert(front[i] == rows[i]);
                    assert(row_matches(front[i], verse, query));
                    assert(before.contains(verse));
                    let k = choose|k: int| 0 <= k < before.len() && before[k] == verse;
                    assert(all[k] == verse);
                } else {
                    assert(hit);
                    assert(all[all.len() - 1] == verse);
                }
            }
        }
    }
}

/// A search gives at most one verse number for each row, none above 999,
/// and no more rows than it was given.
pub proof fn lemma_matching_verses_bounded(rows: Seq<Record>, query: Seq<char>)
    ensures
        matching_verses(rows, query).len() <= rows.len(),
        forall|i: int|
            0 <= i < matching_verses(rows, query).len() ==> matching_verses(rows, query)[i] <= 999,
    decreases rows.len(),
{
    if rows.len() > 0 {
        lemma_matching_verses_bounded(rows.drop_last(), query);
    }
}

} // verus!
