//! Scripture data layer: verse addressing, the relational store, the corpus
//! loader, the seed importers and the persisted user state.

pub mod addressing;
pub mod data;
pub mod db;
pub mod interchange;
pub mod seed;
pub mod state;
pub mod storage;
pub mod surah_index;
pub mod text;
