//! Fuzzy lookup of named records: string similarity scoring, stable
//! best-first ranking, and the small value helpers used when presenting a
//! match.

pub mod similarity;
pub mod pokedex;
pub mod join;
pub mod print;
pub mod sprite;
