//! Building blocks of a small data-access layer for one two-column table
//! (an integer identifier and a fixed-width text name) on a PostgreSQL server:
//! the text of each statement and the values bound to it, the record that a
//! fetched row becomes, and the status message that a row count becomes.
//!
//! Nothing here talks to a server. A caller sends a [`statement::Statement`]
//! over its own connection and hands back what the server answered.

pub mod config;
pub mod decimal;
pub mod listing;
pub mod person;
pub mod statement;
pub mod status;
pub mod table;
pub mod whitespace;
