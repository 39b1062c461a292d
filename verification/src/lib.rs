//! Extraction and reconstruction of SQL statements from data-access logs.
//!
//! A data-access layer logs each statement it runs as a template with `?`
//! placeholders, and the values bound to them on separate lines; a
//! transaction id ties the lines together. This library finds the lines of
//! an id in a log, puts the values into the template, and groups the
//! executions that share a template.
//!
//! - [`encoding`] turns raw log bytes into lines of text.
//! - [`pattern`] holds the extraction patterns and the engine that runs them.
//! - [`log_parser`] correlates the lines of a log by transaction id.
//! - [`sql_formatter`] fills placeholders and formats statements for display.
//! - [`query_processor`] groups executions and resolves a query by id or as
//!   the most recent one.
//! - [`html_generator`] writes executions as a report page.
//! - [`db`], [`config`], [`sql_connector`] and [`file_helper`] hold the
//!   settings of connections and of the application, result sets, and path
//!   text.
//! - [`text`] has the character-level helpers that the others share.
//!
//! The library reads no file and touches no clipboard: it takes bytes and
//! hands back values. Every function states what it returns over the
//! mathematical content of its arguments, and is proved to meet that.

pub mod text;
pub mod pattern;
pub mod sql_formatter;
pub mod encoding;
pub mod log_parser;
pub mod query_processor;
pub mod db;
pub mod file_helper;
pub mod sql_connector;
pub mod config;
pub mod html_generator;
