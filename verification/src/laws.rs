//! What the operations of the library come to, from their inputs to their results.
//!
//! Each law speaks of what a call returns, in plain terms: the texts, numbers and
//! flags that went in and came out.

pub mod config;
pub mod copy;
pub mod du;
pub mod entry;
pub mod error;
pub mod glob;
pub mod operator;
pub mod options;
pub mod refusals;
pub mod requests;
pub mod settings;
pub mod table;
pub mod text;
pub mod units;
pub mod uri;
pub mod values;
