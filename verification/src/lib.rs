//! A verified core for a calorie-log service: a model of the single-table
//! store with its constraints, decimal and JSON formatting of entries,
//! request-path and request-body parsing, routing, and the mapping of
//! storage outcomes to HTTP replies.

pub mod body;
pub mod entry;
pub mod handlers;
pub mod json;
pub mod parse;
pub mod routing;
pub mod table;
