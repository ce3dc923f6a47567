use hyprquran::data::{
    assets_dir, chapter_source, find_chapter, get_available_translations, load_surah_text,
    load_translation, probe_translations,
    sample_translation_asset, surah_asset_name, surah_file, translation_file, ChapterSource,
    LoadError, TranslationSource, QURAN_DIR, TRANSLATIONS_DIR,
};
use hyprquran::db::{
    init_schema, open, upsert_ayah, upsert_surah, upsert_translated_ayah, upsert_translation,
    StoreError,
};
use rusqlite::Connection;

fn store() -> Connection {
    let conn = open(":memory:").unwrap();
    init_schema(&conn).unwrap();
    conn
}

#[test]
fn asset_names() {
    assert_eq!(assets_dir(), "assets");
    assert_eq!(QURAN_DIR, "quran");
    assert_eq!(TRANSLATIONS_DIR, "translations");
    assert_eq!(surah_asset_name(1), "fatiha.json");
    assert_eq!(surah_asset_name(2), "2.json");
    assert_eq!(surah_asset_name(114), "114.json");
    assert_eq!(surah_asset_name(0), "0.json");
}

#[test]
fn sample_translations() {
    assert_eq!(sample_translation_asset("en", 1), Some("en_fatiha.json"));
    assert_eq!(sample_translation_asset("id", 1), Some("id_fatiha.json"));
    assert_eq!(sample_translation_asset("en", 2), None);
    assert_eq!(sample_translation_asset("fr", 1), None);
    assert_eq!(sample_translation_asset("EN", 1), None);
}

#[test]
fn empty_store_falls_back_to_the_asset() {
    let conn = store();
    match load_surah_text(Some(&conn), 1).unwrap() {
        ChapterSource::Asset(name) => assert_eq!(name, "fatiha.json"),
        other => panic!("{:?}", other),
    }
    match load_surah_text(Some(&conn), 36).unwrap() {
        ChapterSource::Asset(name) => assert_eq!(name, "36.json"),
        other => panic!("{:?}", other),
    }
}

#[test]
fn without_a_store_every_chapter_is_an_asset() {
    match load_surah_text(None, 1).unwrap() {
        ChapterSource::Asset(name) => assert_eq!(name, "fatiha.json"),
        other => panic!("{:?}", other),
    }
}

#[test]
fn a_store_without_schema_gets_one() {
    let conn = open(":memory:").unwrap();
    assert!(matches!(load_surah_text(Some(&conn), 1), Ok(ChapterSource::Asset(_))));
    upsert_surah(&conn, 1, "a", "b").unwrap();
}

#[test]
fn stored_chapter_is_served_from_the_store() {
    let conn = store();
    upsert_surah(&conn, 1, "الفاتحة", "Al-Fatiha").unwrap();
    for i in 1..=7u16 {
        upsert_ayah(&conn, 1, 8 - i, &format!("verse {}", 8 - i)).unwrap();
    }
    match load_surah_text(Some(&conn), 1).unwrap() {
        ChapterSource::Store(file) => {
            assert_eq!(file.surah, 1);
            assert_eq!(file.name_ar, "الفاتحة");
            assert_eq!(file.name_en, "Al-Fatiha");
            assert_eq!(file.ayat.len(), 7);
            for (i, t) in file.ayat.iter().enumerate() {
                assert_eq!(t, &format!("verse {}", i + 1));
            }
        }
        other => panic!("{:?}", other),
    }
}

#[test]
fn stored_chapter_without_verses_is_still_from_the_store() {
    let conn = store();
    upsert_surah(&conn, 5, "a", "b").unwrap();
    match load_surah_text(Some(&conn), 5).unwrap() {
        ChapterSource::Store(file) => {
            assert_eq!(file.surah, 5);
            assert!(file.ayat.is_empty());
        }
        other => panic!("{:?}", other),
    }
}

#[test]
fn untranslated_verses_are_left_out() {
    let conn = store();
    upsert_surah(&conn, 1, "الفاتحة", "Al-Fatiha").unwrap();
    let en = upsert_translation(&conn, "Sample EN", "en").unwrap();
    for i in 1..=7u16 {
        let key = upsert_ayah(&conn, 1, i, "arabic").unwrap();
        if i <= 3 {
            upsert_translated_ayah(&conn, key, en, &format!("english {}", i)).unwrap();
        }
    }
    match load_translation(Some(&conn), "en", 1).unwrap() {
        TranslationSource::Store(file) => {
            assert_eq!(file.lang, "en");
            assert_eq!(file.entries.len(), 3);
            for (i, e) in file.entries.iter().enumerate() {
                assert_eq!(e.surah, 1);
                assert_eq!(e.ayah as usize, i + 1);
                assert_eq!(e.text, format!("english {}", i + 1));
            }
        }
        other => panic!("{:?}", other),
    }
    match load_translation(Some(&conn), "id", 1).unwrap() {
        TranslationSource::Store(file) => {
            assert_eq!(file.lang, "id");
            assert!(file.entries.is_empty());
        }
        other => panic!("{:?}", other),
    }
}

#[test]
fn gaps_in_the_middle_are_left_out_too() {
    let file = translation_file(
        "en",
        2,
        &vec![
            (1, Some("a".to_string())),
            (2, None),
            (3, Some("c".to_string())),
            (4, None),
        ],
    );
    assert_eq!(file.lang, "en");
    let got: Vec<(u16, u16, String)> =
        file.entries.iter().map(|e| (e.surah, e.ayah, e.text.clone())).collect();
    assert_eq!(got, vec![(2, 1, "a".to_string()), (2, 3, "c".to_string())]);
    assert!(translation_file("en", 2, &vec![]).entries.is_empty());
}

#[test]
fn without_a_store_translations_are_the_samples() {
    match load_translation(None, "en", 1).unwrap() {
        TranslationSource::Asset(name) => assert_eq!(name, "en_fatiha.json"),
        other => panic!("{:?}", other),
    }
    match load_translation(None, "id", 1).unwrap() {
        TranslationSource::Asset(name) => assert_eq!(name, "id_fatiha.json"),
        other => panic!("{:?}", other),
    }
    assert!(matches!(load_translation(None, "en", 2), Err(LoadError::MissingSample)));
    assert!(matches!(load_translation(None, "fr", 1), Err(LoadError::MissingSample)));
}

#[test]
fn translations_on_offer() {
    assert_eq!(
        get_available_translations(None).unwrap(),
        vec![
            ("en".to_string(), "Sample EN".to_string()),
            ("id".to_string(), "Sample ID".to_string()),
        ]
    );
    let conn = open(":memory:").unwrap();
    assert!(get_available_translations(Some(&conn)).unwrap().is_empty());
    upsert_translation(&conn, "Terjemahan", "id").unwrap();
    upsert_translation(&conn, "English", "en").unwrap();
    assert_eq!(
        get_available_translations(Some(&conn)).unwrap(),
        vec![
            ("en".to_string(), "English".to_string()),
            ("id".to_string(), "Terjemahan".to_string()),
        ]
    );
}

#[test]
fn surah_file_drops_the_numbers() {
    let file = surah_file(
        3,
        "ar".to_string(),
        "en".to_string(),
        &vec![(1, "one".to_string()), (5, "five".to_string())],
    );
    assert_eq!(file.surah, 3);
    assert_eq!(file.name_ar, "ar");
    assert_eq!(file.name_en, "en");
    assert_eq!(file.ayat, vec!["one".to_string(), "five".to_string()]);
}

fn store_with_text_in_a_number_column() -> Connection {
    let conn = open(":memory:").unwrap();
    conn.execute_batch(
        "CREATE TABLE surah (surah_id, name_arabic, name_english);
         CREATE TABLE ayah (ayah_id, surah_id, ayah_number, text_uthmani);
         INSERT INTO surah VALUES (1, 'a', 'b');
         INSERT INTO ayah VALUES (1001, 1, 'one', 'text');",
    )
    .unwrap();
    conn
}

#[test]
fn a_failing_store_fails_the_chapter() {
    let conn = store_with_text_in_a_number_column();
    assert!(matches!(load_surah_text(Some(&conn), 1), Err(StoreError::Engine(_))));
    assert!(matches!(load_surah_text(Some(&conn), 2), Ok(ChapterSource::Asset(_))));
}

#[test]
fn a_failing_store_fails_the_translation() {
    let conn = store_with_text_in_a_number_column();
    assert!(matches!(
        load_translation(Some(&conn), "en", 1),
        Err(LoadError::Store(StoreError::Engine(_)))
    ));
}

#[test]
fn an_empty_round_asks_nothing_of_the_store() {
    let conn = open(":memory:").unwrap();
    assert!(probe_translations(&conn, "en", 1, &vec![]).unwrap().is_empty());
    assert!(matches!(
        probe_translations(&conn, "en", 1, &vec![(1, "text".to_string())]),
        Err(StoreError::Engine(_))
    ));
}

#[test]
fn a_round_keeps_the_numbers_it_was_given() {
    let conn = store();
    upsert_surah(&conn, 1, "a", "b").unwrap();
    let en = upsert_translation(&conn, "Sample EN", "en").unwrap();
    let key = upsert_ayah(&conn, 1, 2, "two").unwrap();
    upsert_translated_ayah(&conn, key, en, "second").unwrap();
    let ayat = vec![(1, "one".to_string()), (2, "two".to_string()), (9, "nine".to_string())];
    assert_eq!(
        probe_translations(&conn, "en", 1, &ayat).unwrap(),
        vec![(1, None), (2, Some("second".to_string())), (9, None)]
    );
}

#[test]
fn nothing_found_means_the_asset() {
    match chapter_source(1, None) {
        ChapterSource::Asset(name) => assert_eq!(name, "fatiha.json"),
        other => panic!("{:?}", other),
    }
    match chapter_source(77, None) {
        ChapterSource::Asset(name) => assert_eq!(name, "77.json"),
        other => panic!("{:?}", other),
    }
}

#[test]
fn a_found_chapter_is_served_as_found() {
    let found = Some((
        "الفاتحة".to_string(),
        "Al-Fatiha".to_string(),
        vec![(1, "a1".to_string()), (2, "a2".to_string()), (3, "a3".to_string())],
    ));
    match chapter_source(1, found) {
        ChapterSource::Store(file) => {
            assert_eq!(file.surah, 1);
            assert_eq!(file.name_ar, "الفاتحة");
            assert_eq!(file.name_en, "Al-Fatiha");
            assert_eq!(file.ayat, vec!["a1".to_string(), "a2".to_string(), "a3".to_string()]);
        }
        other => panic!("{:?}", other),
    }
    match chapter_source(4, Some(("x".to_string(), "y".to_string(), vec![]))) {
        ChapterSource::Store(file) => {
            assert_eq!(file.surah, 4);
            assert_eq!(file.name_ar, "x");
            assert_eq!(file.name_en, "y");
            assert!(file.ayat.is_empty());
        }
        other => panic!("{:?}", other),
    }
}

#[test]
fn the_store_is_asked_for_names_and_verses() {
    let conn = store();
    assert_eq!(find_chapter(&conn, 1).unwrap(), None);
    upsert_surah(&conn, 1, "ar", "en").unwrap();
    assert_eq!(
        find_chapter(&conn, 1).unwrap(),
        Some(("ar".to_string(), "en".to_string(), vec![]))
    );
    upsert_ayah(&conn, 1, 2, "two").unwrap();
    upsert_ayah(&conn, 1, 1, "one").unwrap();
    assert_eq!(
        find_chapter(&conn, 1).unwrap(),
        Some((
            "ar".to_string(),
            "en".to_string(),
            vec![(1, "one".to_string()), (2, "two".to_string())]
        ))
    );
    let bare = open(":memory:").unwrap();
    assert!(matches!(find_chapter(&bare, 1), Err(StoreError::Engine(_))));
}
