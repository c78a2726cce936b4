//! A Japanese-English dictionary: from the XML of JMdict to the records of a
//! full-text index, and from a record to its layout as text.

pub mod config;
pub mod event;
pub mod index;
pub mod leaf;
pub mod parser;
pub mod query;
pub mod record;
pub mod render;
pub mod romaji;
pub mod schema;
pub mod source;
pub mod text;
