//! Verse addresses and the row keys derived from them.
//!
//! A verse is identified by its chapter and its number within the chapter.
//! Inside the relational store the pair is folded into one integer, the row
//! key, which persisted databases already hold and which therefore must never
//! change.

use vstd::prelude::*;

verus! {

/// Number of chapters in the corpus.
pub const CHAPTER_COUNT: u16 = 114;

/// Number of row keys set aside for each chapter.
pub const KEY_STRIDE: i64 = 1000;

/// Largest verse number that a row key can carry.
pub const MAX_VERSE: u16 = 999;

/// The addresses for which the row key is a faithful encoding.
pub open spec fn valid_address(chapter: int, verse: int) -> bool {
    1 <= chapter <= 114 && 1 <= verse <= 999
}

/// The row key of a verse: a thousand keys per chapter, the verse number
/// in the last three decimal digits.
pub open spec fn row_key_of(chapter: int, verse: int) -> int {
    chapter * 1000 + verse
}

/// The verse number that a row key carries.
pub open spec fn verse_of_key(key: int) -> int {
    key % 1000
}

/// The chapter that a row key carries.
pub open spec fn chapter_of_key(key: int) -> int {
    key / 1000
}

/// First row key of a chapter's block of keys.
pub open spec fn chapter_first_key(chapter: int) -> int {
    chapter * 1000
}

/// Last row key of a chapter's block of keys.
pub open spec fn chapter_last_key(chapter: int) -> int {
    chapter * 1000 + 999
}

/// Whether the pair is an address that the row key encodes faithfully.
pub fn is_valid_address(chapter: u16, verse: u16) -> (ok: bool)
    ensures
        ok == valid_address(chapter as int, verse as int),
{
    1 <= chapter && chapter <= CHAPTER_COUNT && 1 <= verse && verse <= MAX_VERSE
}

/// Computes the row key of a verse. Defined for every pair of 16-bit
/// numbers; it is injective on the valid addresses only.
pub fn row_key(chapter: u16, verse: u16) -> (key: i64)
    ensures
        key == row_key_of(chapter as int, verse as int),
        0 <= key <= 65_535 * 1000 + 65_535,
{
    (chapter as i64) * KEY_STRIDE + (verse as i64)
}

/// Recovers the verse number from a row key that lies in some chapter's
/// block of keys.
pub fn verse_from_key(key: i64) -> (verse: u16)
    requires
        key >= 0,
    ensures
        verse == verse_of_key(key as int),
        verse <= 999,
{
    (key % KEY_STRIDE) as u16
}

/// The first and the last row key of a chapter's block.
pub fn chapter_key_range(chapter: u16) -> (range: (i64, i64))
    ensures
        range.0 == chapter_first_key(chapter as int),
        range.1 == chapter_last_key(chapter as int),
{
    let first: i64 = (chapter as i64) * KEY_STRIDE;
    (first, first + 999)
}

/// Distinct valid addresses have distinct row keys.
pub proof fn lemma_row_key_injective(c1: int, v1: int, c2: int, v2: int)
    requires
        valid_address(c1, v1),
        valid_address(c2, v2),
        row_key_of(c1, v1) == row_key_of(c2, v2),
    ensures
        c1 == c2,
        v1 == v2,
{
}

/// Decoding a valid address's row key gives back the verse number and the
/// chapter.
pub proof fn lemma_row_key_decodes(chapter: int, verse: int)
    requires
        valid_address(chapter, verse),
    ensures
        verse_of_key(row_key_of(chapter, verse)) == verse,
        chapter_of_key(row_key_of(chapter, verse)) == chapter,
{
}

/// The row key of a valid address lies in its chapter's block, and in no
/// other chapter's.
pub proof fn lemma_row_key_in_block(chapter: int, verse: int, other: int)
    requires
        valid_address(chapter, verse),
    ensures
        chapter_first_key(chapter) < row_key_of(chapter, verse) <= chapter_last_key(chapter),
        other != chapter ==> !(chapter_first_key(other) <= row_key_of(chapter, verse)
            <= chapter_last_key(other)),
{
}

} // verus!
