//! A terminal reader's core state: a verse corpus, a filterable chapter
//! index and a reading pane with a vim-style cursor and visual selection.
pub mod bible;
pub mod text;
pub mod action;
pub mod reader;
pub mod index;
