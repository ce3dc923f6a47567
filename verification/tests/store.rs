use hyprquran::db::{
    ayah_upsert, ayat_query, chapter_translated_query, surah_list_query, surah_query,
    surah_upsert, translated_ayah_upsert, translated_text_query, translation_insert,
    translations_query, ayat_from, get_available_translations, get_ayat, get_surah, get_surah_list,
    get_translation_for_ayah, init_schema, open, search_rows, search_surah_translation_ayahs,
    surah_list_from, surah_names_from, translated_text_from, translations_from, upsert_ayah,
    upsert_surah, upsert_translated_ayah, upsert_translation, Record, StoreError, DB_FILE,
};
use rusqlite::Connection;

fn store() -> Connection {
    let conn = open(":memory:").unwrap();
    init_schema(&conn).unwrap();
    conn
}

fn record(ints: &[i64], texts: &[&str]) -> Record {
    Record { ints: ints.to_vec(), texts: texts.iter().map(|t| t.to_string()).collect() }
}

#[test]
fn schema_can_be_prepared_twice() {
    let conn = store();
    upsert_surah(&conn, 1, "الفاتحة", "Al-Fatiha").unwrap();
    init_schema(&conn).unwrap();
    assert_eq!(
        get_surah(&conn, 1).unwrap(),
        Some(("الفاتحة".to_string(), "Al-Fatiha".to_string()))
    );
}

#[test]
fn missing_chapter_is_none() {
    let conn = store();
    assert_eq!(get_surah(&conn, 1).unwrap(), None);
    assert!(get_surah_list(&conn).unwrap().is_empty());
    assert!(get_ayat(&conn, 1).unwrap().is_empty());
}

#[test]
fn upsert_surah_replaces_names() {
    let conn = store();
    upsert_surah(&conn, 2, "x", "y").unwrap();
    upsert_surah(&conn, 2, "البقرة", "Al-Baqarah").unwrap();
    upsert_surah(&conn, 1, "الفاتحة", "Al-Fatiha").unwrap();
    assert_eq!(
        get_surah_list(&conn).unwrap(),
        vec![
            (1, "الفاتحة".to_string(), "Al-Fatiha".to_string()),
            (2, "البقرة".to_string(), "Al-Baqarah".to_string()),
        ]
    );
}

#[test]
fn upsert_verse_twice_keeps_one_row_with_second_text() {
    let conn = store();
    upsert_surah(&conn, 1, "الفاتحة", "Al-Fatiha").unwrap();
    assert_eq!(upsert_ayah(&conn, 1, 3, "first").unwrap(), 1003);
    assert_eq!(upsert_ayah(&conn, 1, 3, "second").unwrap(), 1003);
    assert_eq!(get_ayat(&conn, 1).unwrap(), vec![(3, "second".to_string())]);
    let rows: i64 = conn.query_row("SELECT COUNT(*) FROM ayah", [], |r| r.get(0)).unwrap();
    assert_eq!(rows, 1);
}

#[test]
fn verses_come_back_by_number() {
    let conn = store();
    upsert_surah(&conn, 1, "a", "b").unwrap();
    upsert_surah(&conn, 2, "c", "d").unwrap();
    upsert_ayah(&conn, 1, 2, "two").unwrap();
    upsert_ayah(&conn, 2, 1, "other").unwrap();
    upsert_ayah(&conn, 1, 1, "one").unwrap();
    assert_eq!(
        get_ayat(&conn, 1).unwrap(),
        vec![(1, "one".to_string()), (2, "two".to_string())]
    );
    assert_eq!(get_ayat(&conn, 2).unwrap(), vec![(1, "other".to_string())]);
}

#[test]
fn verse_without_chapter_is_refused_by_the_store() {
    let conn = store();
    let r = upsert_ayah(&conn, 9, 1, "orphan");
    assert!(matches!(r, Err(StoreError::Engine(_))));
}

#[test]
fn missing_schema_is_an_engine_error() {
    let conn = open(":memory:").unwrap();
    assert!(matches!(get_surah(&conn, 1), Err(StoreError::Engine(_))));
    assert!(matches!(upsert_surah(&conn, 1, "a", "b"), Err(StoreError::Engine(_))));
    assert!(matches!(get_ayat(&conn, 1), Err(StoreError::Engine(_))));
}

#[test]
fn every_registration_is_a_new_translation() {
    let conn = store();
    let a = upsert_translation(&conn, "Sample EN", "en").unwrap();
    let b = upsert_translation(&conn, "Sample EN", "en").unwrap();
    assert_ne!(a, b);
    let c = upsert_translation(&conn, "Contoh", "id").unwrap();
    assert_ne!(b, c);
    assert_eq!(
        get_available_translations(&conn).unwrap(),
        vec![
            ("en".to_string(), "Sample EN".to_string()),
            ("en".to_string(), "Sample EN".to_string()),
            ("id".to_string(), "Contoh".to_string()),
        ]
    );
}

#[test]
fn translated_verse_is_upserted_by_verse_and_translation() {
    let conn = store();
    upsert_surah(&conn, 1, "a", "b").unwrap();
    let key = upsert_ayah(&conn, 1, 1, "text").unwrap();
    let en = upsert_translation(&conn, "Sample EN", "en").unwrap();
    upsert_translated_ayah(&conn, key, en, "In the name").unwrap();
    upsert_translated_ayah(&conn, key, en, "In the name of God").unwrap();
    assert_eq!(
        get_translation_for_ayah(&conn, 1, 1, "en").unwrap(),
        Some("In the name of God".to_string())
    );
    assert_eq!(get_translation_for_ayah(&conn, 1, 1, "id").unwrap(), None);
    assert_eq!(get_translation_for_ayah(&conn, 1, 2, "en").unwrap(), None);
    let rows: i64 =
        conn.query_row("SELECT COUNT(*) FROM translated_ayah", [], |r| r.get(0)).unwrap();
    assert_eq!(rows, 1);
}

#[test]
fn of_two_translations_in_a_language_the_lowest_identifier_is_read() {
    let conn = store();
    upsert_surah(&conn, 1, "a", "b").unwrap();
    let key = upsert_ayah(&conn, 1, 1, "text").unwrap();
    let first = upsert_translation(&conn, "First", "en").unwrap();
    let second = upsert_translation(&conn, "Second", "en").unwrap();
    upsert_translated_ayah(&conn, key, second, "from the second").unwrap();
    assert_eq!(
        get_translation_for_ayah(&conn, 1, 1, "en").unwrap(),
        Some("from the second".to_string())
    );
    upsert_translated_ayah(&conn, key, first, "from the first").unwrap();
    assert_eq!(
        get_translation_for_ayah(&conn, 1, 1, "en").unwrap(),
        Some("from the first".to_string())
    );
}

fn seven_verses(conn: &Connection, texts: [&str; 7]) {
    upsert_surah(conn, 1, "الفاتحة", "Al-Fatiha").unwrap();
    let en = upsert_translation(conn, "Sample EN", "en").unwrap();
    for (i, t) in texts.iter().enumerate() {
        let key = upsert_ayah(conn, 1, (i + 1) as u16, "arabic").unwrap();
        upsert_translated_ayah(conn, key, en, t).unwrap();
    }
}

#[test]
fn search_returns_matching_verses_in_order() {
    let conn = store();
    seven_verses(
        &conn,
        ["praise", "the light of", "mercy", "day", "guide us to light", "path", "astray"],
    );
    assert_eq!(search_surah_translation_ayahs(&conn, 1, "en", "light").unwrap(), vec![2, 5]);
    assert_eq!(
        search_surah_translation_ayahs(&conn, 1, "id", "light").unwrap(),
        Vec::<u16>::new()
    );
    assert_eq!(
        search_surah_translation_ayahs(&conn, 2, "en", "light").unwrap(),
        Vec::<u16>::new()
    );
}

#[test]
fn search_is_case_sensitive_and_literal() {
    let conn = store();
    seven_verses(&conn, ["Light", "light", "LIGHT", "100%", "a_b", "axb", "l_ght"]);
    assert_eq!(search_surah_translation_ayahs(&conn, 1, "en", "light").unwrap(), vec![2]);
    assert_eq!(search_surah_translation_ayahs(&conn, 1, "en", "%").unwrap(), vec![4]);
    assert_eq!(search_surah_translation_ayahs(&conn, 1, "en", "a_b").unwrap(), vec![5]);
    assert_eq!(
        search_surah_translation_ayahs(&conn, 1, "en", "").unwrap(),
        vec![1, 2, 3, 4, 5, 6, 7]
    );
}

#[test]
fn search_stays_inside_the_chapter() {
    let conn = store();
    upsert_surah(&conn, 1, "a", "b").unwrap();
    upsert_surah(&conn, 2, "c", "d").unwrap();
    let en = upsert_translation(&conn, "Sample EN", "en").unwrap();
    let k1 = upsert_ayah(&conn, 1, 999, "x").unwrap();
    let k2 = upsert_ayah(&conn, 2, 1, "x").unwrap();
    upsert_translated_ayah(&conn, k1, en, "light").unwrap();
    upsert_translated_ayah(&conn, k2, en, "light").unwrap();
    assert_eq!(search_surah_translation_ayahs(&conn, 1, "en", "light").unwrap(), vec![999]);
    assert_eq!(search_surah_translation_ayahs(&conn, 2, "en", "light").unwrap(), vec![1]);
}

#[test]
fn rows_decode_to_names() {
    assert_eq!(surah_names_from(&vec![]).unwrap(), None);
    assert_eq!(
        surah_names_from(&vec![record(&[], &["a", "b"]), record(&[], &["c", "d"])]).unwrap(),
        Some(("a".to_string(), "b".to_string()))
    );
    assert!(matches!(
        surah_names_from(&vec![record(&[], &["a"])]),
        Err(StoreError::Malformed)
    ));
}

#[test]
fn rows_decode_to_text() {
    assert_eq!(translated_text_from(&vec![]).unwrap(), None);
    assert_eq!(
        translated_text_from(&vec![record(&[], &["t"])]).unwrap(),
        Some("t".to_string())
    );
    assert!(matches!(translated_text_from(&vec![record(&[1], &[])]), Err(StoreError::Malformed)));
}

#[test]
fn rows_decode_to_lists() {
    assert_eq!(
        surah_list_from(&vec![record(&[1], &["a", "b"]), record(&[65537], &["c", "d"])]).unwrap(),
        vec![(1, "a".to_string(), "b".to_string()), (1, "c".to_string(), "d".to_string())]
    );
    assert!(matches!(
        surah_list_from(&vec![record(&[1], &["a", "b"]), record(&[], &["c", "d"])]),
        Err(StoreError::Malformed)
    ));
    assert_eq!(
        ayat_from(&vec![record(&[1], &["a"]), record(&[-1], &["b"])]).unwrap(),
        vec![(1, "a".to_string()), (65535, "b".to_string())]
    );
    assert!(matches!(ayat_from(&vec![record(&[1], &[])]), Err(StoreError::Malformed)));
    assert_eq!(
        translations_from(&vec![record(&[], &["en", "Sample EN"])]).unwrap(),
        vec![("en".to_string(), "Sample EN".to_string())]
    );
    assert!(matches!(translations_from(&vec![record(&[], &["en"])]), Err(StoreError::Malformed)));
}

#[test]
fn rows_are_searched() {
    let rows = vec![
        record(&[1001], &["dark"]),
        record(&[1002], &["light"]),
        record(&[1005], &["more light"]),
        record(&[1005], &["light again"]),
    ];
    assert_eq!(search_rows(&rows, "light").unwrap(), vec![2, 5, 5]);
    assert_eq!(search_rows(&rows, "Light").unwrap(), Vec::<u16>::new());
    assert!(matches!(
        search_rows(&vec![record(&[-1], &["light"])], "light"),
        Err(StoreError::Malformed)
    ));
    assert!(matches!(search_rows(&vec![record(&[1001], &[])], "x"), Err(StoreError::Malformed)));
}

#[test]
fn record_columns() {
    let r = record(&[7], &["t"]);
    assert_eq!(r.int_at(0), Some(7));
    assert_eq!(r.int_at(1), None);
    assert_eq!(r.text_at(0), Some("t".to_string()));
    assert_eq!(r.text_at(1), None);
}

#[test]
fn database_file_name() {
    assert_eq!(DB_FILE, "quran.db");
}

#[test]
fn write_statements_bind_what_they_are_given() {
    let st = surah_upsert(2, "البقرة", "Al-Baqarah");
    assert!(st.sql.starts_with("INSERT INTO surah("));
    assert_eq!(st.ints, vec![2]);
    assert_eq!(st.texts, vec!["البقرة".to_string(), "Al-Baqarah".to_string()]);
    assert_eq!((st.int_cols, st.text_cols), (0, 0));

    let st = ayah_upsert(2, 255, "text");
    assert!(st.sql.starts_with("INSERT INTO ayah("));
    assert_eq!(st.ints, vec![2255, 2, 255]);
    assert_eq!(st.texts, vec!["text".to_string()]);
    assert_eq!((st.int_cols, st.text_cols), (0, 0));

    let st = translation_insert("Sample EN", "en");
    assert!(st.sql.starts_with("INSERT INTO translation("));
    assert!(st.ints.is_empty());
    assert_eq!(st.texts, vec!["Sample EN".to_string(), "en".to_string()]);

    let st = translated_ayah_upsert(2255, 7, "text");
    assert!(st.sql.starts_with("INSERT INTO translated_ayah("));
    assert_eq!(st.ints, vec![2255, 7]);
    assert_eq!(st.texts, vec!["text".to_string()]);
}

#[test]
fn queries_bind_what_they_are_given() {
    let st = surah_query(36);
    assert_eq!(st.ints, vec![36]);
    assert!(st.texts.is_empty());
    assert_eq!((st.int_cols, st.text_cols), (0, 2));

    let st = surah_list_query();
    assert!(st.ints.is_empty() && st.texts.is_empty());
    assert_eq!((st.int_cols, st.text_cols), (1, 2));

    let st = ayat_query(36);
    assert_eq!(st.ints, vec![36]);
    assert_eq!((st.int_cols, st.text_cols), (1, 1));

    let st = translated_text_query(2, 255, "en");
    assert_eq!(st.ints, vec![2255]);
    assert_eq!(st.texts, vec!["en".to_string()]);
    assert_eq!((st.int_cols, st.text_cols), (0, 1));

    let st = chapter_translated_query(2, "id");
    assert_eq!(st.ints, vec![2000, 2999]);
    assert_eq!(st.texts, vec!["id".to_string()]);
    assert_eq!((st.int_cols, st.text_cols), (1, 1));

    let st = translations_query();
    assert!(st.ints.is_empty() && st.texts.is_empty());
    assert_eq!((st.int_cols, st.text_cols), (0, 2));
}

#[test]
fn a_column_of_another_type_is_an_engine_error() {
    let conn = open(":memory:").unwrap();
    conn.execute_batch(
        "CREATE TABLE surah (surah_id, name_arabic, name_english);
         INSERT INTO surah VALUES ('one', 1, NULL);",
    )
    .unwrap();
    assert!(matches!(get_surah_list(&conn), Err(StoreError::Engine(_))));
    assert!(matches!(get_surah(&conn, 1), Ok(None)));
    conn.execute_batch("INSERT INTO surah VALUES (1, 1, NULL);").unwrap();
    assert!(matches!(get_surah(&conn, 1), Err(StoreError::Engine(_))));
}
