//! Assembles SQL statement text for several dialects: predicates whose values wait in a
//! registry behind placeholders, statement text built from fragments, and the interpolation
//! that turns a template and its arguments into one literal SQL string.

pub mod args;
pub mod cond;
pub mod create_table;
pub mod error;
pub mod flavor;
pub mod injection;
pub mod interpolate;
pub mod stringbuilder;
pub mod text;
