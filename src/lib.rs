//! Classifies commit hashes by how unusual their characters look, and
//! aggregates collections of classified commits.


pub mod rarity;
pub mod text;
pub mod commit;
pub mod collection;
