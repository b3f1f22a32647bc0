//! Data preparation for a grocery recommender: product metadata and reviews
//! are split into normalized tables, strings are replaced by dictionary ids,
//! and a small JSON layer navigates parsed documents by paths of keys and
//! indices with errors that name the path they failed at.

pub mod text;
pub mod millis;
pub mod json;
pub mod provide;
pub mod vec_mut;
pub mod dictionary;
pub mod pattern;
pub mod style;
pub mod db;
pub mod load;
pub mod files;
pub mod sets;
