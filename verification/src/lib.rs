//! Verified core of a Liquid template engine: data model, variable lookup,
//! render policy bookkeeping and date formatting.

pub mod text;
pub mod kstring;
pub mod value;
pub mod error;
pub mod find;
pub mod policy;
pub mod range;
pub mod datetime;
pub mod strftime;
pub mod registers;
pub mod stack;
pub mod date;
pub mod render;
pub mod expression;
pub mod filters;
pub mod strs;
pub mod messages;
pub mod tags;
pub mod partials;
pub mod recovery;
