//! Indexing and search logic of a small music library: tag normalisation,
//! the search-expression interpreter, the SQLite access layer and the data
//! handed to the user interface.

pub mod text;
pub mod interpreter;
pub mod songtag;
pub mod id3reader;
pub mod query;
pub mod db;
pub mod sqlite;
pub mod view;
pub mod mine_route;
pub mod minero;
