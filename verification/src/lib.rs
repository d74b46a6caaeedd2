//! Merges the browsing history of several browsers into one canonical store.
//!
//! Safari, Firefox and Chrome each keep their history in a database of
//! their own, with tables and an encoding of time of their own. This
//! library finds out which browser wrote a file, reads its visits in one
//! shape and one epoch, and merges them into a store that holds each page
//! once and each visit to a page at an instant once.
//!
//! The library performs no input or output. Whatever touches a database is
//! a state machine that names the next statement to run and takes the reply:
//! `Source::open` for a history file, `Database::persist` for the store, and
//! `backup` for the import of a list of files, which drives the two others.
//! The caller runs the statements on the connections that it holds.
//!
//! - `epoch`: the encodings of time and their conversion.
//! - `sql`: statements, replies and failures as plain values.
//! - `source`: the families of history files, their statements and rows.
//! - `database`: the store's schema, the run that merges visits, and the
//!   statements that read the store.
//! - `model`: what a run does to a store that answers as its schema asks,
//!   proved: a second run stores nothing, a page keeps its first title, and
//!   a URL at an instant is one visit.
//! - `backup`: the import of a list of files, with its one retry on a copy
//!   of a locked file.
//! - `domains`: the hosts that were visited most.
//! - `text`, `util`, `web`, `types`, `progress`: what the others share, and
//!   what the presentation layer needs.

pub mod backup;
pub mod database;
pub mod domains;
pub mod epoch;
pub mod model;
pub mod progress;
pub mod source;
pub mod sql;
pub mod text;
pub mod types;
pub mod util;
pub mod web;
