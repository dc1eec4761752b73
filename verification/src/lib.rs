//! A query engine that finds files with SQL-like queries.
//!
//! A query such as `name, size from /tmp where size gt 1k limit 5` is turned
//! into a [`query::Query`] by the [`parser::Parser`]; a [`searcher::Searcher`]
//! then judges each candidate [`entry::Entry`] against the query, projects the
//! selected columns and renders the accepted rows.
//!
//! The library never touches the file system itself. A [`walk::Walker`] says
//! which directory is to be listed next and hands out the candidates; the
//! caller lists the directories, and fetches what a search asks for when it
//! asks for it.
pub mod aggregate;
pub mod datetime;
pub mod entry;
pub mod eval;
pub mod field;
pub mod function;
pub mod gitignore;
pub mod laws;
pub mod lexer;
pub mod mode;
pub mod owner;
pub mod parser;
pub mod pattern;
pub mod project;
pub mod query;
pub mod render;
pub mod searcher;
pub mod text;
pub mod topn;
pub mod unparse;
pub mod value;
pub mod walk;
pub mod writer;


