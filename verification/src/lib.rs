//! A recipe manager: recipes found on the web are saved with their
//! ingredients, and a shopping list is derived from the ingredients that are
//! still needed.
//!
//! The store keeps its rows in memory, where every operation is verified
//! against a mathematical model of the two tables, and writes each change
//! through to a SQLite database.

pub mod recipe;
pub mod model;
pub mod laws;
pub mod store;
pub mod sql;
pub mod storage;
pub mod database;
pub mod htmlscraper;
pub mod text;
pub mod shell;
