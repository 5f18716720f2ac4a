//! Myman's data layer: entities (notes, tasks, events, knowledge entries and
//! file records) with tags, archiving and full-text search, kept in SQLite.
pub mod db;
pub mod entities;
pub mod models;
pub mod queries;
pub mod sql;
pub mod tag_management;
pub mod text;
pub mod statements;
