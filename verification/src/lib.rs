//! The decision logic of a storage bridge between a SQL engine and OpenDAL.

pub mod capability;
pub mod complaint;
pub mod config;
pub mod copy;
pub mod copy_laws;
pub mod du;
pub mod entry;
pub mod error;
pub mod ffi;
pub mod glob;
pub mod init;
pub mod io;
pub mod laws;
pub mod layers;
pub mod lister;
pub mod mutate;
pub mod operator;
pub mod operator_uri;
pub mod percent;
pub mod reader;
pub mod schemes;
pub mod stat;
pub mod table;
pub mod text;
pub mod text_map;
pub mod units;
pub mod uri;
pub mod utf8;
pub mod version;
pub mod writer;
